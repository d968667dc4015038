//! Pattern binding for generated structure and variant matches.
//!
//! A resolved field is bound under its own name, or `_N` for the tuple field
//! at position `N`. Patterns bind exactly the selected fields and leave every
//! other field unbound.

use vstd::prelude::*;

use crate::input::field::{Field, Fields};
use crate::text::push_str;

verus! {

/// The decimal digit character for `d`.
pub open spec fn digit(d: nat) -> char {
    if d == 0 {
        '0'
    } else if d == 1 {
        '1'
    } else if d == 2 {
        '2'
    } else if d == 3 {
        '3'
    } else if d == 4 {
        '4'
    } else if d == 5 {
        '5'
    } else if d == 6 {
        '6'
    } else if d == 7 {
        '7'
    } else if d == 8 {
        '8'
    } else {
        '9'
    }
}

/// The base-10 rendering of `n`, without leading zeros.
pub open spec fn decimal(n: nat) -> Seq<char>
    decreases n,
{
    if n < 10 {
        seq![digit(n)]
    } else {
        decimal(n / 10).push(digit(n % 10))
    }
}

/// The digit character for `d`, which is below ten.
fn digit_char(d: usize) -> (c: char)
    requires
        d < 10,
    ensures
        c == digit(d as nat),
{
    if d == 0 {
        '0'
    } else if d == 1 {
        '1'
    } else if d == 2 {
        '2'
    } else if d == 3 {
        '3'
    } else if d == 4 {
        '4'
    } else if d == 5 {
        '5'
    } else if d == 6 {
        '6'
    } else if d == 7 {
        '7'
    } else if d == 8 {
        '8'
    } else {
        '9'
    }
}

/// Append the base-10 rendering of `n`.
pub fn push_decimal(out: &mut Vec<char>, n: usize)
    ensures
        final(out)@ == old(out)@ + decimal(n as nat),
    decreases n,
{
    if n < 10 {
        out.push(digit_char(n));
        assert(out@ =~= old(out)@ + decimal(n as nat));
    } else {
        push_decimal(out, n / 10);
        out.push(digit_char(n % 10));
        assert(out@ =~= old(out)@ + decimal(n as nat));
    }
}

/// The local name bound to `field`: its own name, or `_N` for the tuple
/// field at position `N`.
pub open spec fn binding_name(field: Field) -> Seq<char> {
    match field.name {
        Some(name) => name.text@,
        None => seq!['_'] + decimal(field.index as nat),
    }
}

/// Append the local name bound to `field`.
pub fn push_binding(out: &mut Vec<char>, field: &Field)
    ensures
        final(out)@ == old(out)@ + binding_name(*field),
{
    match &field.name {
        Some(name) => push_str(out, name.text.as_str()),
        None => {
            out.push('_');
            push_decimal(out, field.index);
            assert(out@ =~= old(out)@ + binding_name(*field));
        },
    }
}

/// Each selected field bound by reference, each followed by a comma.
pub open spec fn named_items(selected: Seq<Field>) -> Seq<char>
    decreases selected.len(),
{
    if selected.len() == 0 {
        Seq::empty()
    } else {
        named_items(selected.drop_last()) + "ref "@ + binding_name(selected.last()) + ", "@
    }
}

/// Whether some selected field sits at declaration position `i`.
pub open spec fn selects(selected: Seq<Field>, i: int) -> bool {
    exists|k: int| 0 <= k < selected.len() && selected[k].index == i
}

/// The pattern item of tuple position `i`: bound by reference when it is
/// selected, else `_`.
pub open spec fn tuple_item(selected: Seq<Field>, i: nat) -> Seq<char> {
    if selects(selected, i as int) {
        "ref _"@ + decimal(i)
    } else {
        "_"@
    }
}

/// The pattern items of the first `n` tuple positions, separated by commas.
pub open spec fn tuple_items(selected: Seq<Field>, n: nat) -> Seq<char>
    decreases n,
{
    if n == 0 {
        Seq::empty()
    } else if n == 1 {
        tuple_item(selected, 0)
    } else {
        let i = (n - 1) as nat;
        tuple_items(selected, i) + ", "@ + tuple_item(selected, i)
    }
}

/// The structural pattern for `fields` that binds exactly `selected`.
pub open spec fn pattern(fields: Fields, selected: Seq<Field>) -> Seq<char> {
    match fields {
        Fields::Named(_) => if selected.len() == 0 {
            "{ .. }"@
        } else {
            "{ "@ + named_items(selected) + ".. }"@
        },
        Fields::Unnamed(types) => "( "@ + tuple_items(selected, types@.len()) + " )"@,
        Fields::Unit => Seq::empty(),
    }
}

/// Every declared field of `fields` in order.
pub open spec fn all_fields(fields: Fields) -> Seq<Field> {
    Seq::new(fields.spec_len(), |i: int| fields.spec_at(i).unwrap())
}

/// Whether a selected field sits at position `i`.
fn is_selected(selected: &[Field], i: usize) -> (r: bool)
    ensures
        r == selects(selected@, i as int),
{
    let mut k: usize = 0;
    while k < selected.len()
        invariant
            k <= selected@.len(),
            forall|j: int| 0 <= j < k ==> selected@[j].index != i,
        decreases selected.len() - k,
    {
        if selected[k].index == i {
            return true;
        }
        k = k + 1;
    }
    false
}

/// Append the structural pattern for `fields` that binds exactly `selected`.
pub fn push_pattern(out: &mut Vec<char>, fields: &Fields, selected: &[Field])
    ensures
        final(out)@ == old(out)@ + pattern(*fields, selected@),
{
    match fields {
        Fields::Named(_) => {
            if selected.len() == 0 {
                push_str(out, "{ .. }");
            } else {
                push_str(out, "{ ");
                let mut k: usize = 0;
                while k < selected.len()
                    invariant
                        k <= selected@.len(),
                        out@ == old(out)@ + "{ "@ + named_items(selected@.take(k as int)),
                    decreases selected.len() - k,
                {
                    assert(selected@.take(k + 1).drop_last() =~= selected@.take(k as int));
                    push_str(out, "ref ");
                    push_binding(out, &selected[k]);
                    push_str(out, ", ");
                    k = k + 1;
                    assert(out@ =~= old(out)@ + "{ "@ + named_items(selected@.take(k as int)));
                }
                assert(selected@.take(selected@.len() as int) =~= selected@);
                push_str(out, ".. }");
                assert(out@ =~= old(out)@ + pattern(*fields, selected@));
            }
        },
        Fields::Unnamed(types) => {
            push_str(out, "( ");
            let n = types.len();
            let mut i: usize = 0;
            while i < n
                invariant
                    n == types@.len(),
                    i <= n,
                    out@ == old(out)@ + "( "@ + tuple_items(selected@, i as nat),
                decreases n - i,
            {
                if i > 0 {
                    push_str(out, ", ");
                }
                if is_selected(selected, i) {
                    push_str(out, "ref _");
                    push_decimal(out, i);
                } else {
                    push_str(out, "_");
                }
                i = i + 1;
                assert(out@ =~= old(out)@ + "( "@ + tuple_items(selected@, i as nat));
            }
            push_str(out, " )");
            assert(out@ =~= old(out)@ + pattern(*fields, selected@));
        },
        Fields::Unit => {
            assert(out@ =~= old(out)@ + pattern(*fields, selected@));
        },
    }
}

/// Append the structural pattern for `fields` that binds every field.
pub fn push_pattern_all(out: &mut Vec<char>, fields: &Fields)
    ensures
        final(out)@ == old(out)@ + pattern(*fields, all_fields(*fields)),
{
    let all = fields.resolved();
    assert(all@ =~= all_fields(*fields));
    push_pattern(out, fields, all.as_slice());
}

/// The local name a field is bound to: its own name when it has one, else
/// `_` followed by its declaration position in decimal.
pub proof fn law_binding_name(field: Field)
    ensures
        field.name matches Some(n) ==> binding_name(field) == n.text@,
        field.name is None ==> binding_name(field) == seq!['_'] + decimal(field.index as nat),
        field.name is None && field.index == 0 ==> binding_name(field) == "_0"@,
{
    reveal_strlit("_0");
    if field.name is None && field.index == 0 {
        assert(decimal(0) == seq!['0']);
        assert(seq!['_'] + seq!['0'] =~= "_0"@);
    }
}

} // verus!
