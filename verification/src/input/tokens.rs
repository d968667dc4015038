//! The Rust tokens of an `#[error(...)]` attribute and the grammar over them.
//!
//! The adapter that receives compiler tokens hands each token tree over as a
//! [`RawToken`]. This module reads the attribute grammar from those tokens:
//! a format string literal with its explicit arguments, or a parameter
//! keyword with its parenthesized contents.

use vstd::prelude::*;

use crate::ast::{is_diagnostic, Error, Ident, LitInt, LitStr, Path, Span};
use crate::input::attribute::{RawContent, RawParam};
use crate::input::format::{Argument, Format};
use crate::expand::binding::decimal;
use crate::literal::{integer_digits, string_literal_value, string_value};
use crate::spec_lexes;
use crate::text::{all_digits, digits_value, is_reserved, push_str, string_from_chars, text_is};

verus! {

/// The delimiter of a token group.
#[derive(Clone, Copy, Debug, PartialEq, Eq, Structural)]
pub enum Delimiter {
    /// `( ... )`
    Parenthesis,
    /// `[ ... ]`
    Bracket,
    /// `{ ... }`
    Brace,
    /// An invisible delimiter, as left by macro expansion.
    Invisible,
}

/// One Rust token tree.
#[derive(Debug)]
pub enum RawToken {
    /// An identifier or keyword.
    Ident(Ident),
    /// A punctuation character. `joint` when the next token is a punctuation
    /// character written directly after it, as in `::` or `==`.
    Punct { ch: char, joint: bool, span: Span },
    /// A literal: its source text, the value when it is a string literal,
    /// the base-10 digits when it is an integer literal.
    Literal { text: String, string: Option<String>, integer: Option<String>, span: Span },
    /// A delimited group: its delimiter, its source text and its tokens.
    Group { delimiter: Delimiter, text: String, tokens: Vec<RawToken>, span: Span },
}

impl RawToken {
    /// The location of the token.
    pub open spec fn span_of(self) -> Span {
        match self {
            RawToken::Ident(i) => i.span,
            RawToken::Punct { span, .. } => span,
            RawToken::Literal { span, .. } => span,
            RawToken::Group { span, .. } => span,
        }
    }

    /// The source text of the token.
    pub open spec fn text_of(self) -> Seq<char> {
        match self {
            RawToken::Ident(i) => i.text@,
            RawToken::Punct { ch, .. } => seq![ch],
            RawToken::Literal { text, .. } => text@,
            RawToken::Group { text, .. } => text@,
        }
    }

    /// Whether the token is the punctuation character `c`.
    pub open spec fn is_punct(self, c: char) -> bool {
        self matches RawToken::Punct { ch, .. } && ch == c
    }

    /// Whether the token is a punctuation character joined to the next one.
    pub open spec fn is_joint(self) -> bool {
        self matches RawToken::Punct { joint, .. } && joint
    }

    /// Whether the token is an identifier that is not `_` or a keyword.
    pub open spec fn is_plain_ident(self) -> bool {
        self matches RawToken::Ident(i) && !is_reserved(i.text@)
    }

    /// The digits of an integer literal token.
    pub open spec fn integer_of(self) -> Option<Seq<char>> {
        match self {
            RawToken::Literal { integer: Some(d), .. } => Some(d@),
            _ => None,
        }
    }

    /// The location of the token.
    pub fn span(&self) -> (r: Span)
        ensures
            r == self.span_of(),
    {
        match self {
            RawToken::Ident(i) => i.span,
            RawToken::Punct { span, .. } => *span,
            RawToken::Literal { span, .. } => *span,
            RawToken::Group { span, .. } => *span,
        }
    }

    /// Whether the token is the punctuation character `c`.
    pub fn punct_is(&self, c: char) -> (r: bool)
        ensures
            r == self.is_punct(c),
    {
        match self {
            RawToken::Punct { ch, .. } => *ch == c,
            _ => false,
        }
    }

    /// Whether the token is a punctuation character joined to the next one.
    pub fn joint(&self) -> (r: bool)
        ensures
            r == self.is_joint(),
    {
        match self {
            RawToken::Punct { joint, .. } => *joint,
            _ => false,
        }
    }

    /// Whether the token is an identifier that is not `_` or a keyword.
    pub fn plain_ident(&self) -> (r: bool)
        ensures
            r == self.is_plain_ident(),
    {
        match self {
            RawToken::Ident(i) => !reserved(&i.text),
            _ => false,
        }
    }
}

/// Whether `syn` refuses the word `t` as an identifier.
pub fn reserved(t: &String) -> (r: bool)
    ensures
        r == is_reserved(t@),
{
    text_is(t, "_") || text_is(t, "abstract") || text_is(t, "as") || text_is(t, "async")
        || text_is(t, "await") || text_is(t, "become") || text_is(t, "box") || text_is(t, "break")
        || text_is(t, "const") || text_is(t, "continue") || text_is(t, "crate") || text_is(t, "do")
        || text_is(t, "dyn") || text_is(t, "else") || text_is(t, "enum") || text_is(t, "extern")
        || text_is(t, "false") || text_is(t, "final") || text_is(t, "fn") || text_is(t, "for")
        || text_is(t, "if") || text_is(t, "impl") || text_is(t, "in") || text_is(t, "let")
        || text_is(t, "loop") || text_is(t, "macro") || text_is(t, "match") || text_is(t, "mod")
        || text_is(t, "move") || text_is(t, "mut") || text_is(t, "override") || text_is(t, "priv")
        || text_is(t, "pub") || text_is(t, "ref") || text_is(t, "return") || text_is(t, "Self")
        || text_is(t, "self") || text_is(t, "static") || text_is(t, "struct") || text_is(t, "super")
        || text_is(t, "trait") || text_is(t, "true") || text_is(t, "try") || text_is(t, "type")
        || text_is(t, "typeof") || text_is(t, "unsafe") || text_is(t, "unsized") || text_is(t, "use")
        || text_is(t, "virtual") || text_is(t, "where") || text_is(t, "while") || text_is(t, "yield")
}

/// The source text of a token sequence: the tokens' texts separated by one
/// space, except after a punctuation character joined to the next token.
pub open spec fn tokens_text(ts: Seq<RawToken>) -> Seq<char>
    decreases ts.len(),
{
    if ts.len() == 0 {
        Seq::empty()
    } else if ts.len() == 1 {
        ts[0].text_of()
    } else {
        let init = ts.drop_last();
        let sep: Seq<char> = if init.last().is_joint() { Seq::empty() } else { seq![' '] };
        tokens_text(init) + sep + ts.last().text_of()
    }
}

/// Render the tokens `ts[lo..hi]` as source text.
pub fn render(ts: &Vec<RawToken>, lo: usize, hi: usize) -> (r: String)
    requires
        lo <= hi <= ts.len(),
    ensures
        r@ == tokens_text(ts@.subrange(lo as int, hi as int)),
{
    let mut out: Vec<char> = Vec::new();
    let mut i: usize = lo;
    while i < hi
        invariant
            lo <= i <= hi <= ts.len(),
            out@ == tokens_text(ts@.subrange(lo as int, i as int)),
        decreases hi - i,
    {
        let ghost before = out@;
        if i > lo && !ts[i - 1].joint() {
            out.push(' ');
        }
        match &ts[i] {
            RawToken::Ident(ident) => push_str(&mut out, ident.text.as_str()),
            RawToken::Punct { ch, .. } => out.push(*ch),
            RawToken::Literal { text, .. } => push_str(&mut out, text.as_str()),
            RawToken::Group { text, .. } => push_str(&mut out, text.as_str()),
        }
        let ghost next = ts@.subrange(lo as int, i + 1);
        assert(next.drop_last() =~= ts@.subrange(lo as int, i as int));
        if i > lo {
            assert(next.drop_last().last() == ts@[i - 1]);
            assert(out@ =~= tokens_text(next));
        } else {
            assert(out@ =~= tokens_text(next));
        }
        i = i + 1;
    }
    string_from_chars(&out)
}

/// Whether the token can be one segment of a path: an identifier that is
/// not a keyword, or one of the keywords that start a path.
pub open spec fn is_segment(t: RawToken) -> bool {
    t matches RawToken::Ident(i) && (!is_reserved(i.text@) || i.text@ == "super"@ || i.text@ == "self"@
        || i.text@ == "Self"@ || i.text@ == "crate"@ || i.text@ == "try"@)
}

/// Whether `cs[i]` and `cs[i + 1]` form the path separator `::`.
pub open spec fn is_colons(cs: Seq<RawToken>, i: int) -> bool {
    0 <= i && i + 1 < cs.len() && cs[i].is_punct(':') && cs[i].is_joint() && cs[i + 1].is_punct(':')
}

/// Whether `cs[i..]` is path segments separated by `::`.
pub open spec fn is_path_from(cs: Seq<RawToken>, i: int) -> bool
    decreases cs.len() - i,
{
    &&& 0 <= i < cs.len()
    &&& is_segment(cs[i])
    &&& (i + 1 == cs.len() || (is_colons(cs, i + 1) && is_path_from(cs, i + 3)))
}

/// Whether the tokens `cs` form a path without generic arguments, with an
/// optional leading `::`.
pub open spec fn is_path(cs: Seq<RawToken>) -> bool {
    if is_colons(cs, 0) {
        is_path_from(cs, 2)
    } else {
        is_path_from(cs, 0)
    }
}

/// Whether `c` is what the parenthesized tokens `cs` read as; `group` is the
/// location of the parentheses.
pub open spec fn content_describes(cs: Seq<RawToken>, group: Span, c: RawContent) -> bool {
    if cs.len() == 1 && cs[0].is_plain_ident() {
        c matches RawContent::Ident(i) && cs[0] matches RawToken::Ident(j) && i.text@ == j.text@ && i.span == j.span
    } else if cs.len() == 1 && cs[0].integer_of() is Some {
        c matches RawContent::Int(l) && l.digits@ == cs[0].integer_of()->Some_0 && l.span == cs[0].span_of()
    } else if cs.len() == 1 && cs[0] is Ident {
        c matches RawContent::Reserved(i) && cs[0] matches RawToken::Ident(j) && i.text@ == j.text@ && i.span == j.span
    } else if is_path(cs) {
        c matches RawContent::Path(p) && p.text@ == tokens_text(cs) && p.span == cs[0].span_of().join_spec(
            cs.last().span_of(),
        )
    } else if cs.len() == 0 {
        c matches RawContent::Empty(s) && s == group
    } else {
        c matches RawContent::Other(s) && s == cs[0].span_of()
    }
}

/// Whether the token can be one segment of a path.
fn segment(t: &RawToken) -> (r: bool)
    ensures
        r == is_segment(*t),
{
    match t {
        RawToken::Ident(i) => !reserved(&i.text) || text_is(&i.text, "super") || text_is(&i.text, "self")
            || text_is(&i.text, "Self") || text_is(&i.text, "crate") || text_is(&i.text, "try"),
        _ => false,
    }
}

/// Whether `cs[i]` and `cs[i + 1]` form the path separator `::`.
fn colons(cs: &Vec<RawToken>, i: usize) -> (r: bool)
    ensures
        r == is_colons(cs@, i as int),
{
    i < cs.len() && i + 1 < cs.len() && cs[i].punct_is(':') && cs[i].joint() && cs[i + 1].punct_is(':')
}

/// Whether `cs[i..]` is path segments separated by `::`.
fn path_from(cs: &Vec<RawToken>, i: usize) -> (r: bool)
    ensures
        r == is_path_from(cs@, i as int),
    decreases cs.len() - i,
{
    if i >= cs.len() || !segment(&cs[i]) {
        false
    } else if i + 1 == cs.len() {
        true
    } else if colons(cs, i + 1) {
        path_from(cs, i + 3)
    } else {
        false
    }
}

/// Read the tokens inside the parentheses after a parameter keyword.
pub fn read_content(cs: &Vec<RawToken>, group: Span) -> (r: RawContent)
    ensures
        content_describes(cs@, group, r),
{
    let n = cs.len();
    if n == 1 && cs[0].plain_ident() {
        match &cs[0] {
            RawToken::Ident(i) => {
                return RawContent::Ident(Ident::new(i.text.as_str(), i.span));
            },
            _ => {},
        }
    }
    if n == 1 {
        match &cs[0] {
            RawToken::Literal { integer: Some(d), span, .. } => {
                return RawContent::Int(LitInt::new(d.as_str(), *span));
            },
            RawToken::Ident(i) => {
                return RawContent::Reserved(Ident::new(i.text.as_str(), i.span));
            },
            _ => {},
        }
    }
    let path = if colons(cs, 0) {
        path_from(cs, 2)
    } else {
        path_from(cs, 0)
    };
    if path {
        let text = render(cs, 0, n);
        assert(cs@.subrange(0, n as int) =~= cs@);
        RawContent::Path(Path::new(text.as_str(), cs[0].span().join(cs[n - 1].span())))
    } else if n > 0 {
        RawContent::Other(cs[0].span())
    } else {
        RawContent::Empty(group)
    }
}

/// The position of the first `,` at or after `i`, or the length of `ts`
/// when there is none.
pub open spec fn next_comma(ts: Seq<RawToken>, i: int) -> int
    decreases ts.len() - i,
{
    if i >= ts.len() {
        ts.len() as int
    } else if ts[i].is_punct(',') {
        i
    } else {
        next_comma(ts, i + 1)
    }
}

/// The next comma lies between `i` and the end.
pub proof fn lemma_next_comma(ts: Seq<RawToken>, i: int)
    requires
        0 <= i <= ts.len(),
    ensures
        i <= next_comma(ts, i) <= ts.len(),
        next_comma(ts, i) < ts.len() ==> ts[next_comma(ts, i)].is_punct(','),
    decreases ts.len() - i,
{
    if i < ts.len() && !ts[i].is_punct(',') {
        lemma_next_comma(ts, i + 1);
    }
}

/// Whether the argument `ts[lo..hi]` starts with `name =`.
pub open spec fn is_named(ts: Seq<RawToken>, lo: int, hi: int) -> bool {
    &&& hi - lo >= 2
    &&& ts[lo].is_plain_ident()
    &&& ts[lo + 1].is_punct('=')
    &&& !(hi - lo >= 3 && ts[lo + 1].is_joint() && ts[lo + 2].is_punct('='))
}

/// Where the expression of the argument `ts[lo..hi]` starts.
pub open spec fn expression_start(ts: Seq<RawToken>, lo: int, hi: int) -> int {
    if is_named(ts, lo, hi) {
        lo + 2
    } else {
        lo
    }
}

/// The source text of the expression of the argument `ts[lo..hi]`.
pub open spec fn expression_text(ts: Seq<RawToken>, lo: int, hi: int) -> Seq<char> {
    tokens_text(ts.subrange(expression_start(ts, lo, hi), hi))
}

/// Where a refused expression of the argument `ts[lo..hi]` is reported: at
/// its first token, or at the token before it when it has none.
pub open spec fn expression_span(ts: Seq<RawToken>, lo: int, hi: int) -> Span {
    let e = expression_start(ts, lo, hi);
    if e < hi {
        ts[e].span_of()
    } else {
        ts[e - 1].span_of()
    }
}

/// Whether `a` is the argument `ts[lo..hi]`.
pub open spec fn argument_is(ts: Seq<RawToken>, lo: int, hi: int, a: Argument) -> bool {
    &&& a.expression@ == expression_text(ts, lo, hi)
    &&& if is_named(ts, lo, hi) {
        a.name matches Some(n) && ts[lo] matches RawToken::Ident(i) && n.text@ == i.text@ && n.span == i.span
    } else {
        a.name is None
    }
}

/// The verdict on an expression as text: `None` when it was accepted, else
/// the message it was refused with.
pub open spec fn verdict_view(verdict: Option<String>) -> Option<Seq<char>> {
    match verdict {
        Some(m) => Some(m@),
        None => None,
    }
}

/// Whether `r` is what the argument `ts[lo..hi]` reads as, given the verdict
/// on its expression.
pub open spec fn argument_describes(
    ts: Seq<RawToken>,
    lo: int,
    hi: int,
    verdict: Option<Seq<char>>,
    r: Result<Argument, Error>,
) -> bool {
    match verdict {
        Some(m) => r matches Err(e) && e@.len() == 1 && is_diagnostic(e@[0], expression_span(ts, lo, hi), m),
        None => r matches Ok(a) && argument_is(ts, lo, hi, a),
    }
}

/// Check that `text` reads as one Rust expression.
///
/// Wraps `syn::parse_str::<syn::Expr>`: `None` when it accepts the text,
/// else the message of its error. `syn` first lexes the text through
/// `proc_macro2::TokenStream::from_str`, so acceptance implies that the
/// `proc-macro2` lexer accepts the text (`spec_lexes`), whichever lexer runs.
/// Left unsaid: which lexable texts are accepted, since that depends on the
/// lexer picked at run time (the compiler's inside a procedural macro, its
/// own elsewhere), and the message of a refusal.
#[verifier::external_body]
fn expression_error(text: &str) -> (r: Option<String>)
    ensures
        r is None ==> spec_lexes(text@),
{
    syn::parse_str::<syn::Expr>(text).err().map(|error| error.to_string())
}

/// Where the expression of the argument `ts[lo..hi]` starts.
fn start_of_expression(ts: &Vec<RawToken>, lo: usize, hi: usize) -> (r: usize)
    requires
        lo <= hi <= ts.len(),
    ensures
        r == expression_start(ts@, lo as int, hi as int),
{
    if hi - lo >= 2 && ts[lo].plain_ident() && ts[lo + 1].punct_is('=') && !(hi - lo >= 3 && ts[lo + 1].joint()
        && ts[lo + 2].punct_is('=')) {
        lo + 2
    } else {
        lo
    }
}

/// Read the argument `ts[lo..hi]`, given the verdict on its expression text
/// (`None` when it reads as a Rust expression, else the refusal message).
pub fn read_argument(ts: &Vec<RawToken>, lo: usize, hi: usize, verdict: Option<String>) -> (r: Result<
    Argument,
    Error,
>)
    requires
        0 < lo <= hi <= ts.len(),
    ensures
        argument_describes(ts@, lo as int, hi as int, verdict_view(verdict), r),
{
    let e = start_of_expression(ts, lo, hi);
    match verdict {
        Some(message) => {
            let span = if e < hi {
                ts[e].span()
            } else {
                ts[e - 1].span()
            };
            Err(Error::new(span, message.as_str()))
        },
        None => {
            let text = render(ts, e, hi);
            let name = if e > lo {
                match &ts[lo] {
                    RawToken::Ident(i) => Some(Ident::new(i.text.as_str(), i.span)),
                    _ => None,
                }
            } else {
                None
            };
            Ok(Argument::new(name, text.as_str()))
        },
    }
}

/// A verdict on an expression text: the text asked about, and `None` when
/// it was accepted, else the message it was refused with.
pub type Verdict = (Seq<char>, Option<Seq<char>>);

/// Whether `v` answers the expression text of the argument `ts[lo..hi]`,
/// and accepts it only if it lexes.
pub open spec fn verdict_fits(ts: Seq<RawToken>, lo: int, hi: int, v: Verdict) -> bool {
    &&& v.0 == expression_text(ts, lo, hi)
    &&& v.1 is None ==> spec_lexes(v.0)
}

/// Read the argument `ts[lo..hi]`, asking whether its expression text reads
/// as a Rust expression.
fn check_argument(ts: &Vec<RawToken>, lo: usize, hi: usize) -> (r: (Result<Argument, Error>, Ghost<Verdict>))
    requires
        0 < lo <= hi <= ts.len(),
    ensures
        verdict_fits(ts@, lo as int, hi as int, r.1@),
        argument_describes(ts@, lo as int, hi as int, r.1@.1, r.0),
{
    let e = start_of_expression(ts, lo, hi);
    let text = render(ts, e, hi);
    let verdict = expression_error(text.as_str());
    let ghost v = (text@, verdict_view(verdict));
    (read_argument(ts, lo, hi, verdict), Ghost(v))
}

/// The outcome of reading explicit arguments: the token ranges of the
/// arguments, or the diagnostic.
pub type ArgumentsOutcome = Result<Seq<(int, int)>, (Span, Seq<char>)>;

/// Reading the explicit arguments from the argument that starts at `lo`,
/// trying `ts[lo..c]` as its tokens; `verdicts` are the verdicts on the
/// expression texts tried from here on, in order, and `failure` is the
/// refusal of the first range tried for this argument, if it was refused.
///
/// An argument ends at the first comma (or the end) before which its
/// expression text is accepted. When no such end exists the first refusal
/// is reported.
pub open spec fn arguments_outcome(
    ts: Seq<RawToken>,
    lo: int,
    c: int,
    failure: Option<(Span, Seq<char>)>,
    verdicts: Seq<Verdict>,
) -> ArgumentsOutcome
    decreases ts.len() - lo, ts.len() - c,
    when 0 < lo <= c <= ts.len()
{
    let verdict = if verdicts.len() > 0 {
        verdicts[0].1
    } else {
        None
    };
    let rest = verdicts.drop_first();
    match verdict {
        None => if c + 1 >= ts.len() {
            Ok(seq![(lo, c)])
        } else {
            proof {
                lemma_next_comma(ts, c + 1);
            }
            match arguments_outcome(ts, c + 1, next_comma(ts, c + 1), None, rest) {
                Ok(ranges) => Ok(seq![(lo, c)] + ranges),
                Err(f) => Err(f),
            }
        },
        Some(m) => {
            let f = match failure {
                Some(f) => f,
                None => (expression_span(ts, lo, c), m),
            };
            if c >= ts.len() {
                Err(f)
            } else {
                proof {
                    lemma_next_comma(ts, c + 1);
                }
                arguments_outcome(ts, lo, next_comma(ts, c + 1), Some(f), rest)
            }
        },
    }
}

/// Whether `verdicts` are exactly the verdicts asked for while reading the
/// explicit arguments from the argument that starts at `lo`, trying
/// `ts[lo..c]` first: one per expression text tried, in order, each
/// answering that text.
pub open spec fn verdicts_fit(ts: Seq<RawToken>, lo: int, c: int, verdicts: Seq<Verdict>) -> bool
    decreases ts.len() - lo, ts.len() - c,
    when 0 < lo <= c <= ts.len()
{
    &&& verdicts.len() > 0
    &&& verdict_fits(ts, lo, c, verdicts[0])
    &&& match verdicts[0].1 {
        None => if c + 1 >= ts.len() {
            verdicts.len() == 1
        } else {
            proof {
                lemma_next_comma(ts, c + 1);
            }
            verdicts_fit(ts, c + 1, next_comma(ts, c + 1), verdicts.drop_first())
        },
        Some(_) => if c >= ts.len() {
            verdicts.len() == 1
        } else {
            proof {
                lemma_next_comma(ts, c + 1);
            }
            verdicts_fit(ts, lo, next_comma(ts, c + 1), verdicts.drop_first())
        },
    }
}

/// Whether `verdicts` are exactly the verdicts asked for while reading the
/// explicit arguments after `ts[0..2]`.
pub open spec fn explicit_verdicts_fit(ts: Seq<RawToken>, verdicts: Seq<Verdict>) -> bool {
    if ts.len() <= 2 {
        verdicts.len() == 0
    } else {
        verdicts_fit(ts, 2, next_comma(ts, 2), verdicts)
    }
}

/// The outcome of reading the explicit arguments after `ts[0..2]` (a format
/// literal and a comma), given the verdicts on the expression texts tried,
/// in order.
pub open spec fn explicit_arguments(ts: Seq<RawToken>, verdicts: Seq<Verdict>) -> ArgumentsOutcome {
    if ts.len() <= 2 {
        Ok(Seq::empty())
    } else {
        arguments_outcome(ts, 2, next_comma(ts, 2), None, verdicts)
    }
}

/// Whether `r` is the single diagnostic `message` at `span`.
pub open spec fn fails_with<T>(r: Result<T, Error>, span: Span, message: Seq<char>) -> bool {
    r matches Err(e) && e@.len() == 1 && is_diagnostic(e@[0], span, message)
}

/// Whether `args` holds one argument for each token range of `ranges`.
pub open spec fn arguments_are(ts: Seq<RawToken>, ranges: Seq<(int, int)>, args: Seq<Argument>) -> bool {
    &&& args.len() == ranges.len()
    &&& forall|k: int|
        #![trigger args[k]]
        0 <= k < ranges.len() ==> argument_is(ts, ranges[k].0, ranges[k].1, args[k])
}

/// Whether `r` is what the outcome `o` of reading arguments describes.
pub open spec fn arguments_describe(ts: Seq<RawToken>, o: ArgumentsOutcome, r: Result<Vec<Argument>, Error>) -> bool {
    match o {
        Ok(ranges) => r matches Ok(args) && arguments_are(ts, ranges, args@),
        Err((span, message)) => fails_with(r, span, message),
    }
}

/// The position of the first `,` at or after `i`, or the length of `ts`.
fn find_comma(ts: &Vec<RawToken>, i: usize) -> (r: usize)
    requires
        i <= ts.len(),
    ensures
        r == next_comma(ts@, i as int),
    decreases ts.len() - i,
{
    if i >= ts.len() {
        ts.len()
    } else if ts[i].punct_is(',') {
        i
    } else {
        find_comma(ts, i + 1)
    }
}

/// Read the explicit arguments from the argument that starts at `lo`,
/// trying `ts[lo..c]` as its tokens; `failure` is the diagnostic for the
/// first range tried for this argument when it was refused.
fn read_arguments_from(ts: &Vec<RawToken>, lo: usize, c: usize, failure: Option<Error>, Ghost(first): Ghost<
    Option<(Span, Seq<char>)>,
>) -> (r: (Result<Vec<Argument>, Error>, Ghost<Seq<Verdict>>))
    requires
        0 < lo <= c <= ts.len(),
        c < ts.len() ==> ts@[c as int].is_punct(','),
        match first {
            Some((s, m)) => failure matches Some(e) && e@.len() == 1 && is_diagnostic(e@[0], s, m),
            None => failure is None,
        },
    ensures
        arguments_describe(ts@, arguments_outcome(ts@, lo as int, c as int, first, r.1@), r.0),
        verdicts_fit(ts@, lo as int, c as int, r.1@),
    decreases ts.len() - lo, ts.len() - c,
{
    let (read, Ghost(verdict)) = check_argument(ts, lo, c);
    match read {
        Ok(a) => {
            if ts.len() - c <= 1 {
                let mut args: Vec<Argument> = Vec::new();
                args.push(a);
                let ghost vs = seq![verdict];
                assert(vs.drop_first() =~= Seq::<Verdict>::empty());
                return (Ok(args), Ghost(vs));
            }
            let next = find_comma(ts, c + 1);
            proof {
                lemma_next_comma(ts@, c + 1);
            }
            let (rest, Ghost(rest_verdicts)) = read_arguments_from(ts, c + 1, next, None, Ghost(None));
            let ghost vs = seq![verdict] + rest_verdicts;
            assert(vs.drop_first() =~= rest_verdicts);
            match rest {
                Ok(more) => {
                    let mut args: Vec<Argument> = Vec::new();
                    args.push(a);
                    let mut more = more;
                    let ghost tail = more@;
                    args.append(&mut more);
                    proof {
                        let ranges = arguments_outcome(ts@, c + 1, next as int, None, rest_verdicts)->Ok_0;
                        let all = seq![(lo as int, c as int)] + ranges;
                        assert(args@ =~= seq![args@[0]] + tail);
                        assert forall|k: int| #![trigger args@[k]] 0 <= k < all.len() implies argument_is(
                            ts@,
                            all[k].0,
                            all[k].1,
                            args@[k],
                        ) by {
                            if k > 0 {
                                assert(args@[k] == tail[k - 1]);
                                assert(all[k] == ranges[k - 1]);
                            }
                        }
                    }
                    (Ok(args), Ghost(vs))
                },
                Err(e) => (Err(e), Ghost(vs)),
            }
        },
        Err(e) => {
            let ghost f = match first {
                Some(f) => f,
                None => (expression_span(ts@, lo as int, c as int), verdict.1->Some_0),
            };
            let reported = match failure {
                Some(earlier) => earlier,
                None => e,
            };
            if c >= ts.len() {
                let ghost vs = seq![verdict];
                return (Err(reported), Ghost(vs));
            }
            let next = find_comma(ts, c + 1);
            proof {
                lemma_next_comma(ts@, c + 1);
            }
            let (rest, Ghost(rest_verdicts)) = read_arguments_from(ts, lo, next, Some(reported), Ghost(Some(f)));
            let ghost vs = seq![verdict] + rest_verdicts;
            assert(vs.drop_first() =~= rest_verdicts);
            (rest, Ghost(vs))
        },
    }
}

/// Read the explicit arguments after a format literal and its comma.
fn read_arguments(ts: &Vec<RawToken>) -> (r: (Result<Vec<Argument>, Error>, Ghost<Seq<Verdict>>))
    requires
        ts.len() >= 2,
    ensures
        arguments_describe(ts@, explicit_arguments(ts@, r.1@), r.0),
        explicit_verdicts_fit(ts@, r.1@),
{
    if ts.len() <= 2 {
        return (Ok(Vec::new()), Ghost(Seq::empty()));
    }
    let c = find_comma(ts, 2);
    proof {
        lemma_next_comma(ts@, 2);
    }
    read_arguments_from(ts, 2, c, None, Ghost(None))
}

/// Whether the token is a string literal.
pub open spec fn is_string(t: RawToken) -> bool {
    t matches RawToken::Literal { string: Some(_), .. }
}

/// The value of a string literal token.
pub open spec fn string_of(t: RawToken) -> Seq<char> {
    match t {
        RawToken::Literal { string: Some(v), .. } => v@,
        _ => Seq::empty(),
    }
}

/// Whether the token is a group in parentheses.
pub open spec fn is_parenthesized(t: RawToken) -> bool {
    t matches RawToken::Group { delimiter: Delimiter::Parenthesis, .. }
}

/// Whether `content` is what follows the parameter keyword `ts[0]`: what
/// the parenthesized group `ts[1]` holds, or nothing when there is none.
pub open spec fn keyword_content(ts: Seq<RawToken>, content: Option<RawContent>) -> bool {
    if ts.len() >= 2 && is_parenthesized(ts[1]) {
        match (ts[1], content) {
            (RawToken::Group { tokens, span, .. }, Some(c)) => content_describes(tokens@, span, c),
            _ => false,
        }
    } else {
        content is None
    }
}

/// The location of the token right after the parameter keyword `ts[0]`, if
/// any.
pub open spec fn keyword_after(ts: Seq<RawToken>) -> Option<Span> {
    if ts.len() > 1 {
        Some(ts[1].span_of())
    } else {
        None
    }
}

/// The location of the first token after the parameter keyword `ts[0]` and
/// the parenthesized group right after it, if any.
pub open spec fn keyword_rest(ts: Seq<RawToken>) -> Option<Span> {
    let taken: int = if ts.len() >= 2 && is_parenthesized(ts[1]) {
        2
    } else {
        1
    };
    if ts.len() > taken {
        Some(ts[taken].span_of())
    } else {
        None
    }
}

/// Whether `r` is the parameter keyword `ts[0]` with the content after it,
/// the locations of the tokens after it and after them, and `end` as the
/// end of the attribute arguments.
pub open spec fn keyword_describes(ts: Seq<RawToken>, end: Span, r: Result<RawParam, Error>) -> bool {
    match (ts[0], r) {
        (RawToken::Ident(i), Ok(RawParam::Keyword { keyword, content, after, rest, end: e })) => keyword.text@ == i.text@
            && keyword.span == i.span && keyword_content(ts, content) && after == keyword_after(ts) && rest
            == keyword_rest(ts) && e == end,
        _ => false,
    }
}

/// Whether `r` is the format string literal `ts[0]` with no arguments, or
/// with the explicit arguments read after it.
pub open spec fn format_describes(ts: Seq<RawToken>, verdicts: Seq<Verdict>, r: Result<RawParam, Error>) -> bool {
    match r {
        Ok(RawParam::Format(f)) => f.literal.value@ == string_of(ts[0]) && f.literal.span == ts[0].span_of() && if ts.len()
            == 1 {
            f.arguments@.len() == 0
        } else {
            explicit_arguments(ts, verdicts) matches Ok(ranges) && arguments_are(ts, ranges, f.arguments@)
        },
        _ => false,
    }
}

/// Whether `r` is what the tokens `ts` of one `#[error(...)]` attribute read
/// as, given the verdicts on the expression texts tried for its explicit
/// arguments, in order; `span` locates the attribute arguments.
pub open spec fn param_describes(
    ts: Seq<RawToken>,
    span: Span,
    verdicts: Seq<Verdict>,
    r: Result<RawParam, Error>,
) -> bool {
    if ts.len() == 0 {
        r matches Ok(RawParam::Empty(s)) && s == span
    } else if is_string(ts[0]) {
        if ts.len() == 1 {
            format_describes(ts, verdicts, r)
        } else if !ts[1].is_punct(',') {
            fails_with(r, ts[1].span_of(), "unexpected token"@)
        } else {
            match explicit_arguments(ts, verdicts) {
                Ok(_) => format_describes(ts, verdicts, r),
                Err((s, m)) => fails_with(r, s, m),
            }
        }
    } else if ts[0].is_plain_ident() {
        keyword_describes(ts, span, r)
    } else {
        r matches Ok(RawParam::Other(s)) && s == ts[0].span_of()
    }
}

/// Whether `verdicts` are exactly the verdicts asked for while reading the
/// tokens `ts` of one attribute: those on the explicit arguments after a
/// format literal and its comma, and none otherwise.
pub open spec fn param_verdicts_fit(ts: Seq<RawToken>, verdicts: Seq<Verdict>) -> bool {
    if ts.len() >= 2 && is_string(ts[0]) && ts[1].is_punct(',') {
        explicit_verdicts_fit(ts, verdicts)
    } else {
        verdicts.len() == 0
    }
}

/// Read the tokens of one `#[error(...)]` attribute: a format string
/// literal with its explicit arguments, or a parameter keyword with the
/// contents of the parentheses after it and the location of any token left
/// after them (which the parameter's own grammar refuses or not). `span` locates the attribute
/// arguments. Whether the tokens of an explicit argument read as a Rust
/// expression is asked of `syn`, up to each following comma in turn until
/// it accepts; the result is what the grammar gives for its answers.
pub fn read_param(tokens: &Vec<RawToken>, span: Span) -> (r: Result<RawParam, Error>)
    ensures
        exists|verdicts: Seq<Verdict>| param_describes(tokens@, span, verdicts, r) && param_verdicts_fit(tokens@, verdicts),
{
    let n = tokens.len();
    if n == 0 {
        let r = Ok(RawParam::Empty(span));
        assert(param_describes(tokens@, span, Seq::empty(), r) && param_verdicts_fit(tokens@, Seq::<Verdict>::empty()));
        return r;
    }
    match &tokens[0] {
        RawToken::Literal { string: Some(value), span: s, .. } => {
            let literal = LitStr::new(value.as_str(), *s);
            if n == 1 {
                let r = Ok(RawParam::Format(Format::new(literal, Vec::new())));
                assert(param_describes(tokens@, span, Seq::empty(), r) && param_verdicts_fit(tokens@, Seq::<Verdict>::empty()));
                return r;
            }
            if !tokens[1].punct_is(',') {
                let r = Err(Error::new(tokens[1].span(), "unexpected token"));
                assert(param_describes(tokens@, span, Seq::empty(), r) && param_verdicts_fit(tokens@, Seq::<Verdict>::empty()));
                return r;
            }
            let (read, Ghost(verdicts)) = read_arguments(tokens);
            match read {
                Ok(args) => {
                    let r = Ok(RawParam::Format(Format::new(literal, args)));
                    assert(param_describes(tokens@, span, verdicts, r) && param_verdicts_fit(tokens@, verdicts));
                    r
                },
                Err(e) => {
                    let r = Err(e);
                    assert(param_describes(tokens@, span, verdicts, r) && param_verdicts_fit(tokens@, verdicts));
                    r
                },
            }
        },
        RawToken::Ident(i) => {
            if reserved(&i.text) {
                let r = Ok(RawParam::Other(i.span));
                assert(param_describes(tokens@, span, Seq::empty(), r) && param_verdicts_fit(tokens@, Seq::<Verdict>::empty()));
                return r;
            }
            let keyword = Ident::new(i.text.as_str(), i.span);
            let mut taken: usize = 1;
            let mut content: Option<RawContent> = None;
            if n >= 2 {
                match &tokens[1] {
                    RawToken::Group { delimiter: Delimiter::Parenthesis, tokens: inner, span: group, .. } => {
                        content = Some(read_content(inner, *group));
                        taken = 2;
                    },
                    _ => {},
                }
            }
            let after = if n > 1 {
                Some(tokens[1].span())
            } else {
                None
            };
            let rest = if n > taken {
                Some(tokens[taken].span())
            } else {
                None
            };
            let r = Ok(RawParam::Keyword { keyword, content, after, rest, end: span });
            assert(param_describes(tokens@, span, Seq::empty(), r) && param_verdicts_fit(tokens@, Seq::<Verdict>::empty()));
            r
        },
        _ => {
            let r = Ok(RawParam::Other(tokens[0].span()));
            assert(param_describes(tokens@, span, Seq::empty(), r) && param_verdicts_fit(tokens@, Seq::<Verdict>::empty()));
            r
        },
    }
}

/// The literal token with source text `text` at `span`: its value when it
/// is a string literal, and its base-10 digits when it is an integer literal,
/// as `syn` decodes them.
pub fn literal_token(text: &str, span: Span) -> (r: RawToken)
    ensures
        match r {
            RawToken::Literal { text: t, string, integer, span: s } => {
                &&& t@ == text@
                &&& s == span
                &&& string_literal_value(text@) is Some ==> (string is Some && string->Some_0@ == string_literal_value(text@)->Some_0)
                &&& (text@.len() > 0 && all_digits(text@)) ==> (integer is Some && integer->Some_0@ == decimal(digits_value(text@)))
            },
            _ => false,
        },
{
    RawToken::Literal { text: String::from_str(text), string: string_value(text), integer: integer_digits(text), span }
}

} // verus!
