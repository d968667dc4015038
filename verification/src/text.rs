//! Character-level text helpers shared by parsing, resolution and expansion.
//!
//! Text is handled as `Vec<char>` while it is being built, and its meaning is
//! stated over `Seq<char>` views.

use vstd::prelude::*;

verus! {

/// Return the characters of `s` in order.
pub fn chars_of(s: &str) -> (v: Vec<char>)
    ensures
        v@ == s@,
{
    let n = s.unicode_len();
    let mut v: Vec<char> = Vec::new();
    let mut i: usize = 0;
    while i < n
        invariant
            n == s@.len(),
            i <= n,
            v@ == s@.subrange(0, i as int),
        decreases n - i,
    {
        let c = s.get_char(i);
        v.push(c);
        i = i + 1;
        assert(v@ =~= s@.subrange(0, i as int));
    }
    assert(v@ =~= s@);
    v
}

/// Collect characters into an owned string.
///
/// Wraps `FromIterator<char> for String`, which concatenates the characters
/// in iteration order.
#[verifier::external_body]
pub(crate) fn string_from_chars(v: &Vec<char>) -> (s: String)
    ensures
        s@ == v@,
{
    v.iter().collect()
}

/// Append the characters of `s` to `out`.
pub fn push_str(out: &mut Vec<char>, s: &str)
    ensures
        final(out)@ == old(out)@ + s@,
{
    let n = s.unicode_len();
    let mut i: usize = 0;
    let ghost start = out@;
    while i < n
        invariant
            n == s@.len(),
            i <= n,
            out@ == start + s@.subrange(0, i as int),
        decreases n - i,
    {
        let c = s.get_char(i);
        out.push(c);
        i = i + 1;
        assert(out@ =~= start + s@.subrange(0, i as int));
    }
    assert(s@.subrange(0, n as int) =~= s@);
}

/// Append the characters of `v` to `out`.
pub fn push_chars(out: &mut Vec<char>, v: &Vec<char>)
    ensures
        final(out)@ == old(out)@ + v@,
{
    let mut i: usize = 0;
    let ghost start = out@;
    while i < v.len()
        invariant
            i <= v.len(),
            out@ == start + v@.subrange(0, i as int),
        decreases v.len() - i,
    {
        out.push(v[i]);
        i = i + 1;
        assert(out@ =~= start + v@.subrange(0, i as int));
    }
    assert(v@.subrange(0, v.len() as int) =~= v@);
}

/// Compare two strings by their characters.
pub fn text_eq(a: &String, b: &String) -> (r: bool)
    ensures
        r == (a@ == b@),
{
    a.eq(b)
}

} // verus!

verus! {

/// Whether `t` is a nonempty run of ASCII letters, digits and underscores.
pub open spec fn word_text(t: Seq<char>) -> bool {
    &&& t.len() > 0
    &&& forall|i: int| 0 <= i < t.len() ==> is_word(#[trigger] t[i])
}

/// Whether `syn` refuses the word `t` as an identifier: `_` and the Rust
/// keywords, reserved words included.
pub open spec fn is_reserved(t: Seq<char>) -> bool {
    t == "_"@
        || t == "abstract"@
        || t == "as"@
        || t == "async"@
        || t == "await"@
        || t == "become"@
        || t == "box"@
        || t == "break"@
        || t == "const"@
        || t == "continue"@
        || t == "crate"@
        || t == "do"@
        || t == "dyn"@
        || t == "else"@
        || t == "enum"@
        || t == "extern"@
        || t == "false"@
        || t == "final"@
        || t == "fn"@
        || t == "for"@
        || t == "if"@
        || t == "impl"@
        || t == "in"@
        || t == "let"@
        || t == "loop"@
        || t == "macro"@
        || t == "match"@
        || t == "mod"@
        || t == "move"@
        || t == "mut"@
        || t == "override"@
        || t == "priv"@
        || t == "pub"@
        || t == "ref"@
        || t == "return"@
        || t == "Self"@
        || t == "self"@
        || t == "static"@
        || t == "struct"@
        || t == "super"@
        || t == "trait"@
        || t == "true"@
        || t == "try"@
        || t == "type"@
        || t == "typeof"@
        || t == "unsafe"@
        || t == "unsized"@
        || t == "use"@
        || t == "virtual"@
        || t == "where"@
        || t == "while"@
        || t == "yield"@
}

/// The identifier that a run of word characters reads as: the word itself,
/// unless it starts with a digit (a number) or is reserved.
pub open spec fn word_ident(t: Seq<char>) -> Option<Seq<char>> {
    if t.len() > 0 && !is_digit(t[0]) && !is_reserved(t) {
        Some(t)
    } else {
        None
    }
}

/// Read `text` as one Rust identifier.
///
/// Wraps `syn::parse_str::<syn::Ident>`, which lexes the text and accepts it
/// when it holds exactly one identifier that is not `_` or a keyword; the
/// identifier is returned as its `to_string` text. For a run of ASCII word
/// characters every lexer `proc_macro2` may use reads one identifier or one
/// number, so the result is `word_ident` of the text. Left unsaid: the result
/// for any other text, which depends on the lexer in use (the compiler's,
/// inside a procedural macro, normalises non-ASCII identifiers).
#[verifier::external_body]
pub(crate) fn parse_ident(text: &str) -> (r: Option<String>)
    ensures
        word_text(text@) ==> match word_ident(text@) {
            Some(t) => r matches Some(s) && s@ == t,
            None => r is None,
        },
{
    syn::parse_str::<syn::Ident>(text).ok().map(|ident| ident.to_string())
}

/// Whether `c` is an ASCII decimal digit.
pub open spec fn is_digit(c: char) -> bool {
    '0' <= c && c <= '9'
}

/// Whether every character of `s` is an ASCII decimal digit.
pub open spec fn all_digits(s: Seq<char>) -> bool {
    forall|i: int| 0 <= i < s.len() ==> is_digit(#[trigger] s[i])
}

/// The value of a string of decimal digits.
pub open spec fn digits_value(s: Seq<char>) -> nat
    decreases s.len(),
{
    if s.len() == 0 {
        0
    } else {
        digits_value(s.drop_last()) * 10 + ((s.last() as int) - ('0' as int)) as nat
    }
}

/// Whether `c` is an ASCII letter, digit or underscore.
pub open spec fn is_word(c: char) -> bool {
    ('0' <= c && c <= '9') || ('a' <= c && c <= 'z') || ('A' <= c && c <= 'Z') || c == '_'
}

/// Whether `i` is the first position of `c` in `s`.
pub open spec fn is_first(s: Seq<char>, c: char, i: int) -> bool {
    &&& 0 <= i < s.len()
    &&& s[i] == c
    &&& forall|j: int| 0 <= j < i ==> s[j] != c
}

/// The first position of `c` in `s`.
pub open spec fn find(s: Seq<char>, c: char) -> Option<int> {
    if exists|i: int| 0 <= i < s.len() && s[i] == c {
        Some(choose|i: int| is_first(s, c, i))
    } else {
        None
    }
}

/// The first position of `c` in `s` exists and is `i`.
pub proof fn lemma_find_is_first(s: Seq<char>, c: char, i: int)
    requires
        is_first(s, c, i),
    ensures
        find(s, c) == Some(i),
{
    let k = choose|k: int| is_first(s, c, k);
    assert(is_first(s, c, k));
    if k < i {
        assert(s[k] != c);
    } else if i < k {
        assert(s[i] != c);
    }
}

/// Whether `s` contains `c`.
pub open spec fn contains_char(s: Seq<char>, c: char) -> bool {
    exists|i: int| 0 <= i < s.len() && s[i] == c
}

/// Return the first position of `c` in `v` at or after `start`, counted
/// from `start`.
pub fn find_from(v: &Vec<char>, start: usize, c: char) -> (r: Option<usize>)
    requires
        start <= v@.len(),
    ensures
        r matches Some(i) ==> find(v@.skip(start as int), c) == Some(i as int),
        r is None ==> find(v@.skip(start as int), c) is None,
{
    let ghost s = v@.skip(start as int);
    let mut i: usize = start;
    while i < v.len()
        invariant
            start <= i <= v@.len(),
            s == v@.skip(start as int),
            forall|j: int| 0 <= j < i - start ==> s[j] != c,
        decreases v.len() - i,
    {
        if v[i] == c {
            proof {
                assert(s[i - start] == c);
                lemma_find_is_first(s, c, i - start);
            }
            return Some(i - start);
        }
        i = i + 1;
    }
    proof {
        if exists|k: int| 0 <= k < s.len() && s[k] == c {
            let k = choose|k: int| 0 <= k < s.len() && s[k] == c;
            assert(s[k] != c);
        }
    }
    None
}

/// Copy the characters `v[lo..hi]`.
pub fn slice(v: &Vec<char>, lo: usize, hi: usize) -> (r: Vec<char>)
    requires
        lo <= hi <= v@.len(),
    ensures
        r@ == v@.subrange(lo as int, hi as int),
{
    let mut out: Vec<char> = Vec::new();
    let mut i: usize = lo;
    while i < hi
        invariant
            lo <= i <= hi,
            hi <= v@.len(),
            out@ == v@.subrange(lo as int, i as int),
        decreases hi - i,
    {
        out.push(v[i]);
        i = i + 1;
        assert(out@ =~= v@.subrange(lo as int, i as int));
    }
    out
}

/// Whether every character of `v` is an ASCII digit.
pub fn is_all_digits(v: &Vec<char>) -> (r: bool)
    ensures
        r == all_digits(v@),
{
    let mut i: usize = 0;
    while i < v.len()
        invariant
            i <= v@.len(),
            forall|j: int| 0 <= j < i ==> is_digit(#[trigger] v@[j]),
        decreases v.len() - i,
    {
        if !('0' <= v[i] && v[i] <= '9') {
            return false;
        }
        i = i + 1;
    }
    true
}

/// Read a string of decimal digits as a `usize`, or `None` when its value
/// does not fit.
pub fn parse_digits(v: &Vec<char>) -> (r: Option<usize>)
    requires
        all_digits(v@),
    ensures
        r matches Some(n) ==> n == digits_value(v@),
        r is None <==> digits_value(v@) > usize::MAX,
{
    let mut value: usize = 0;
    let mut i: usize = 0;
    while i < v.len()
        invariant
            i <= v@.len(),
            all_digits(v@),
            value == digits_value(v@.subrange(0, i as int)),
        decreases v.len() - i,
    {
        assert(v@.subrange(0, i + 1).drop_last() =~= v@.subrange(0, i as int));
        assert(is_digit(v@[i as int]));
        let d = (v[i] as u32 - '0' as u32) as usize;
        if value > (usize::MAX - d) / 10 {
            proof {
                lemma_digits_value_prefix_grows(v@, i as int + 1);
            }
            return None;
        }
        value = value * 10 + d;
        i = i + 1;
    }
    assert(v@.subrange(0, v@.len() as int) =~= v@);
    Some(value)
}

/// The value of a digit string is at least the value of any of its prefixes.
pub proof fn lemma_digits_value_prefix_grows(s: Seq<char>, k: int)
    requires
        0 <= k <= s.len(),
        all_digits(s),
    ensures
        digits_value(s.subrange(0, k)) <= digits_value(s),
    decreases s.len() - k,
{
    if k < s.len() {
        lemma_digits_value_prefix_grows(s, k + 1);
        assert(s.subrange(0, k + 1).drop_last() =~= s.subrange(0, k));
    } else {
        assert(s.subrange(0, k) =~= s);
    }
}

} // verus!

verus! {

/// The position that `find` selects is the first occurrence.
pub proof fn lemma_find(s: Seq<char>, c: char)
    ensures
        find(s, c) matches Some(i) ==> is_first(s, c, i),
        find(s, c) is None ==> !contains_char(s, c),
{
    if exists|i: int| 0 <= i < s.len() && s[i] == c {
        lemma_first_exists(s, c);
    }
}

/// A first occurrence exists whenever an occurrence does.
proof fn lemma_first_exists(s: Seq<char>, c: char)
    requires
        exists|i: int| 0 <= i < s.len() && s[i] == c,
    ensures
        exists|i: int| is_first(s, c, i),
    decreases s.len(),
{
    if s[0] == c {
        assert(is_first(s, c, 0));
    } else {
        let t = s.drop_first();
        let i = choose|i: int| 0 <= i < s.len() && s[i] == c;
        assert(t[i - 1] == s[i]);
        lemma_first_exists(t, c);
        let k = choose|k: int| is_first(t, c, k);
        assert(t[k] == s[k + 1]);
        assert forall|j: int| 0 <= j < k + 1 implies s[j] != c by {
            if j > 0 {
                assert(s[j] == t[j - 1]);
            }
        }
        assert(is_first(s, c, k + 1));
    }
}

} // verus!

verus! {

/// Whether `s` has exactly the characters of the literal `lit`.
pub fn text_is(s: &String, lit: &str) -> (r: bool)
    ensures
        r == (s@ == lit@),
{
    let other = String::from_str(lit);
    s.eq(&other)
}

} // verus!
