use vstd::prelude::*;

use crate::atoms::{atom_name, atom_with_code, lemma_atom_codes_small};
use crate::listing::numbers_of;
use crate::niltree::Tree;
use crate::output::{
    atom_head_text, debug_output_text, history_line, history_lines, list_ints_text, nan_text,
    nested_parts, nested_text, num_or_atom_item_text, num_or_atom_text, num_text,
};
use crate::niltree::NilTree;
use crate::text::{decimal_value, join, lemma_decimal_value_roundtrip};
use crate::text::{bracketed, decimal};

verus! {

/// `nil`, the number 0 and the empty list are the same empty list, and each reads as 0.
pub proof fn law_empty_forms()
    ensures
        Tree::Nil.elems() =~= Seq::<Tree>::empty(),
        Tree::Num(0).elems() =~= Seq::<Tree>::empty(),
        Tree::List(Seq::empty()).elems() =~= Seq::<Tree>::empty(),
        Tree::Nil.number() == Some(0nat),
        Tree::Num(0).number() == Some(0nat),
        Tree::List(Seq::empty()).number() == Some(0nat),
{
}

/// The number `n` is the list of `n` zeros.
pub proof fn law_num_is_list_of_zeros(n: nat)
    ensures
        Tree::Num(n).elems().len() == n,
        forall|i: int| 0 <= i < n ==> (#[trigger] Tree::Num(n).elems()[i]).number() == Some(0nat),
{
}

/// A tree that reads as a number is a list of numbers (of zeros).
pub proof fn law_number_is_number_list(t: Tree)
    requires
        t.number() is Some,
    ensures
        t.is_number_list(),
{
    match t {
        Tree::List(s) => {
            assert forall|i: int| 0 <= i < t.elems().len() implies (#[trigger] t.elems()[i]).number() is Some by {
                assert(t.elems()[i] == s[s.len() - 1 - i]);
                assert(s[s.len() - 1 - i] == Tree::Nil);
            }
        },
        _ => {},
    }
}

/// A flat list of numbers is also a list of lists of numbers, each number `n` being read
/// as the list of `n` zeros.
pub proof fn law_number_list_is_number_list_list(t: Tree)
    requires
        t.is_number_list(),
    ensures
        t.is_number_list_list(),
{
    assert forall|i: int| 0 <= i < t.elems().len() implies (#[trigger] t.elems()[i]).is_number_list() by {
        law_number_is_number_list(t.elems()[i]);
    }
}

/// On a flat list of numbers the nested format writes the same text as the flat one.
pub proof fn law_nested_text_of_number_list(t: Tree)
    requires
        t.is_number_list(),
    ensures
        nested_text(t) == list_ints_text(t),
{
    assert(nested_parts(t) =~= t.elems().map_values(|e: Tree| num_text(e)));
}

/// The flat list text shows, in decimal, exactly the numbers that the list is read as.
pub proof fn law_list_ints_text_shows_numbers(t: Tree, ns: Seq<usize>)
    requires
        numbers_of(t, ns),
    ensures
        list_ints_text(t) == bracketed(ns.map_values(|n: usize| decimal(n as nat))),
{
    assert(t.elems().map_values(|e: Tree| num_text(e)) =~= ns.map_values(|n: usize| decimal(n as nat)));
}

/// Writing a number with atoms differs from writing it in decimal only where the number
/// is the number of an atom.
pub proof fn law_atoms_only_at_atom_numbers(t: Tree)
    requires
        !(t.number() matches Some(n) && atom_with_code(n) is Some),
    ensures
        num_or_atom_item_text(t) == num_text(t),
{
}

/// A list built by putting `head` in front of `tail` is a list of numbers exactly when
/// `head` reads as a number and `tail` is a list of numbers.
pub proof fn law_cons_number_list(head: Tree, tail: Tree, built: Tree)
    requires
        built.elems() == seq![head] + tail.elems(),
    ensures
        built.is_number_list() <==> (head.number() is Some && tail.is_number_list()),
{
    if built.is_number_list() {
        assert(built.elems()[0] == head);
        assert forall|i: int| 0 <= i < tail.elems().len() implies (#[trigger] tail.elems()[i]).number() is Some by {
            assert(built.elems()[i + 1] == tail.elems()[i]);
        }
    }
}

/// A number is written as an atom exactly when it is that atom's number, and then as that
/// atom's own name; any other number, however large, keeps its decimal numeral.
pub proof fn law_num_or_atom_text(n: nat)
    ensures
        atom_with_code(n) matches Some(a) ==> num_or_atom_text(n) == atom_name(a),
        atom_with_code(n) is None ==> num_or_atom_text(n) == decimal(n),
{
    lemma_atom_codes_small(n);
}

/// A list head whose digits read as `n` becomes `[`, `n` as an atom where `n` is an atom's
/// number and else `n` in decimal, and `,`.
pub proof fn law_atom_head_text(digits: Seq<char>, n: usize)
    requires
        decimal_value(digits) == Some(n),
    ensures
        atom_with_code(n as nat) matches Some(a) ==> atom_head_text(digits) == seq!['['] + atom_name(a) + seq![','],
        atom_with_code(n as nat) is None ==> atom_head_text(digits) == seq!['['] + decimal(n as nat) + seq![','],
{
    law_num_or_atom_text(n as nat);
}

/// A list head written by the nested-list format (the numeral of its number `n`) keeps
/// that numeral unless `n` is an atom's number.
pub proof fn law_atom_head_of_numeral(n: usize)
    ensures
        atom_with_code(n as nat) is None ==> atom_head_text(decimal(n as nat)) == seq!['['] + decimal(n as nat) + seq![','],
        atom_with_code(n as nat) matches Some(a) ==> atom_head_text(decimal(n as nat)) == seq!['['] + atom_name(a) + seq![','],
{
    lemma_decimal_value_roundtrip(n);
    law_atom_head_text(decimal(n as nat), n);
}

/// How a tree is written as a number, with or without atoms, depends only on the number
/// it stands for, not on how the tree holds it.
pub proof fn law_item_text_depends_on_number(t1: Tree, t2: Tree)
    requires
        t1.number() == t2.number(),
    ensures
        num_or_atom_item_text(t1) == num_or_atom_item_text(t2),
        num_text(t1) == num_text(t2),
{
}

/// A tree that stands for `n` is written as `n` is written; one that stands for no
/// number is written `NaN`.
pub proof fn law_item_text_of_number(t: Tree)
    ensures
        t.number() matches Some(n) ==> num_or_atom_item_text(t) == num_or_atom_text(n),
        t.number() matches Some(n) ==> num_text(t) == decimal(n),
        t.number() is None ==> num_or_atom_item_text(t) == nan_text() && num_text(t) == nan_text(),
{
}

/// There is one history line per recorded assignment, in order, each `prog var = value`.
pub proof fn law_history_lines(history: Seq<(String, String, NilTree)>, outs: Seq<String>)
    ensures
        history_lines(history, outs).len() == history.len(),
        forall|i: int| 0 <= i < history.len() ==> #[trigger] history_lines(history, outs)[i]
            == history[i].0@ + seq![' '] + history[i].1@ + seq![' ', '=', ' '] + outs[i]@,
{
}

/// Without debug only the result is shown. With debug the history lines come first, each
/// on its own line, then an empty line, then the result.
pub proof fn law_debug_output_text(lines: Seq<Seq<char>>, result: Seq<char>)
    ensures
        debug_output_text(false, lines, result) == result,
        lines.len() == 0 ==> debug_output_text(true, lines, result) == seq!['\n'] + result,
        lines.len() > 0 ==> debug_output_text(true, lines, result)
            == join(lines, seq!['\n']) + seq!['\n', '\n'] + result,
{
    let nl = seq!['\n'];
    assert(Seq::<Seq<char>>::empty().push(result) =~= seq![result]);
    if lines.len() == 0 {
        assert(lines.push(Seq::empty()) =~= seq![Seq::<char>::empty()]);
        crate::text::law_join_push(seq![Seq::<char>::empty()], result, nl);
        crate::text::law_join_base(Seq::<char>::empty(), nl);
        assert(debug_output_text(true, lines, result) =~= nl + result);
    } else {
        crate::text::law_join_push(lines, Seq::empty(), nl);
        crate::text::law_join_push(lines.push(Seq::empty()), result, nl);
        assert(debug_output_text(true, lines, result) =~= join(lines, nl) + seq!['\n', '\n'] + result);
    }
}

} // verus!
