use vstd::prelude::*;

use crate::niltree::{NilTree, Tree, model, items, lemma_items_view, lemma_list_view, lemma_list_predicates};
use crate::atoms::{Atom, atom_name, atom_with_code};
use crate::text::{decimal, decimal_string, bracketed, string_views, bracket_list, decimal_value, parse_decimal, join, join_strings};

verus! {

/// The ways in which the result of a run can be shown.
#[derive(PartialEq, Eq, Structural, Clone, Copy, Debug)]
pub enum OutputFormat {
    NilTree,
    Integer,
    ListOfIntegers,
    NestedListOfIntegers,
    NestedListOfAtoms,
    ProgramAsData,
    CoreWhile,
}

/// The name under which a format is shown.
pub open spec fn format_name(f: OutputFormat) -> Seq<char> {
    match f {
        OutputFormat::NilTree => "Nil Tree"@,
        OutputFormat::Integer => "Integer"@,
        OutputFormat::ListOfIntegers => "List of integers"@,
        OutputFormat::NestedListOfIntegers => "Nested list of integers"@,
        OutputFormat::NestedListOfAtoms => "Nested list of atoms"@,
        OutputFormat::ProgramAsData => "Program as data"@,
        OutputFormat::CoreWhile => "Core While"@,
    }
}

impl OutputFormat {
    /// The name under which the format is shown.
    pub fn to_string(&self) -> (s: String)
        ensures
            s@ == format_name(*self),
    {
        match self {
            OutputFormat::NilTree => String::from_str("Nil Tree"),
            OutputFormat::Integer => String::from_str("Integer"),
            OutputFormat::ListOfIntegers => String::from_str("List of integers"),
            OutputFormat::NestedListOfIntegers => String::from_str("Nested list of integers"),
            OutputFormat::NestedListOfAtoms => String::from_str("Nested list of atoms"),
            OutputFormat::ProgramAsData => String::from_str("Program as data"),
            OutputFormat::CoreWhile => String::from_str("Core While"),
        }
    }
}

/// What a run produces to be shown: a text, an error message, or nothing yet.
#[derive(Debug)]
pub enum Output {
    Text(String),
    Error(String),
    Empty,
}

impl Default for Output {
    fn default() -> (r: Output)
        ensures
            r is Empty,
    {
        Output::Empty
    }
}

/// The text of a tree that does not stand for a number.
pub open spec fn nan_text() -> Seq<char> {
    seq!['N', 'a', 'N']
}

/// The text of a tree as a number: its decimal numeral, or `NaN`.
pub open spec fn num_text(t: Tree) -> Seq<char> {
    match t.number() {
        Some(n) => decimal(n),
        None => nan_text(),
    }
}

/// The tree given to `parse_num` does not stand for a number.
#[derive(Debug, PartialEq, Eq, Structural, Clone, Copy)]
pub enum ParseNumError {
    NaN,
}

impl ParseNumError {
    /// The message of the error.
    pub fn to_string(&self) -> (s: String)
        ensures
            s@ == nan_text(),
    {
        proof { reveal_strlit("NaN"); }
        String::from_str("NaN")
    }
}

/// Reads `tree` as a number: `nil` is 0, a list of `n` nils is `n`.
pub fn parse_num(tree: &NilTree) -> (res: Result<usize, ParseNumError>)
    ensures
        res is Ok <==> tree@.number() is Some,
        res matches Ok(n) ==> tree@.number() == Some(n as nat),
{
    match tree {
        NilTree::Nil => Ok(0),
        NilTree::List(v) => {
            let mut i: usize = 0;
            while i < v.len()
                invariant
                    i <= v@.len(),
                    *tree == NilTree::List(*v),
                    forall|j: int| 0 <= j < i ==> #[trigger] v@[j] == NilTree::Nil,
                decreases v@.len() - i,
            {
                match &v[i] {
                    NilTree::Nil => {},
                    _ => {
                        proof {
                            lemma_list_view(*tree);
                            assert(tree@->List_0[i as int] != Tree::Nil);
                        }
                        return Err(ParseNumError::NaN);
                    },
                }
                i = i + 1;
            }
            proof {
                lemma_list_view(*tree);
                assert forall|j: int| 0 <= j < v@.len() implies #[trigger] tree@->List_0[j] == Tree::Nil by {
                    assert(v@[j] == NilTree::Nil);
                }
            }
            Ok(v.len())
        },
        NilTree::Num(n) => Ok(*n),
    }
}

/// The number that `tree` stands for, in decimal, or `NaN`.
pub fn parse_num_str(tree: &NilTree) -> (s: String)
    ensures
        s@ == num_text(tree@),
{
    match parse_num(tree) {
        Ok(n) => decimal_string(n),
        Err(e) => e.to_string(),
    }
}

/// Whether `tree` can be read as a flat list of natural numbers: `nil` is the empty
/// list, `n` is the list of `n` zeros, and a list is one when each element reads as
/// a number.
pub fn is_list_of_nums(tree: &NilTree) -> (res: bool)
    ensures
        res == tree@.is_number_list(),
{
    match tree {
        NilTree::Nil => true,
        NilTree::Num(_) => true,
        NilTree::List(v) => {
            proof {
                lemma_list_view(*tree);
                lemma_list_predicates(tree@->List_0);
            }
            let mut i: usize = 0;
            while i < v.len()
                invariant
                    i <= v@.len(),
                    *tree == NilTree::List(*v),
                    forall|j: int| 0 <= j < i ==> (#[trigger] v@[j])@.number() is Some,
                decreases v@.len() - i,
            {
                if parse_num(&v[i]).is_err() {
                    proof {
                        lemma_list_view(*tree);
                        lemma_list_predicates(tree@->List_0);
                        assert(tree@->List_0[i as int] == v@[i as int]@);
                    }
                    return false;
                }
                i = i + 1;
            }
            assert forall|j: int| 0 <= j < v@.len() implies (#[trigger] tree@->List_0[j]).number() is Some by {
                assert(v@[j]@.number() is Some);
            }
            true
        },
    }
}

/// Whether `tree` can be read as a list of lists of natural numbers: each element is
/// a list of numbers in the sense of `is_list_of_nums`.
pub fn is_list_of_list_of_nums(tree: &NilTree) -> (res: bool)
    ensures
        res == tree@.is_number_list_list(),
{
    match tree {
        NilTree::Nil => true,
        NilTree::Num(_) => true,
        NilTree::List(v) => {
            proof {
                lemma_list_view(*tree);
                lemma_list_predicates(tree@->List_0);
            }
            let mut i: usize = 0;
            while i < v.len()
                invariant
                    i <= v@.len(),
                    *tree == NilTree::List(*v),
                    forall|j: int| 0 <= j < i ==> (#[trigger] v@[j])@.is_number_list(),
                decreases v@.len() - i,
            {
                if !is_list_of_nums(&v[i]) {
                    proof {
                        lemma_list_view(*tree);
                        lemma_list_predicates(tree@->List_0);
                        assert(tree@->List_0[i as int] == v@[i as int]@);
                    }
                    return false;
                }
                i = i + 1;
            }
            assert forall|j: int| 0 <= j < v@.len() implies (#[trigger] tree@->List_0[j]).is_number_list() by {
                assert(v@[j]@.is_number_list());
            }
            true
        },
    }
}

/// The text of `t` as a flat list of numbers: each element as by `num_text`.
pub open spec fn list_ints_text(t: Tree) -> Seq<char> {
    bracketed(t.elems().map_values(|e: Tree| num_text(e)))
}

/// Writes the list that `tree` stands for as `[a,b,...]`, each element written by `f`.
pub fn format_list_f<F: Fn(&NilTree) -> String>(tree: &NilTree, f: F) -> (res: String)
    requires
        forall|t: &NilTree| #[trigger] f.requires((t,)),
    ensures
        exists|outs: Seq<String>|
            #![trigger string_views(outs)]
            {
                &&& outs.len() == items(*tree).len()
                &&& forall|i: int| 0 <= i < outs.len() ==> f.ensures((&items(*tree)[i],), #[trigger] outs[i])
                &&& res@ == bracketed(string_views(outs))
            },
{
    let mut parts: Vec<String> = Vec::new();
    match tree {
        NilTree::Nil => {},
        NilTree::List(v) => {
            let mut i: usize = v.len();
            while i > 0
                invariant
                    i <= v@.len(),
                    *tree == NilTree::List(*v),
                    forall|t: &NilTree| #[trigger] f.requires((t,)),
                    parts@.len() == v@.len() - i,
                    forall|k: int| 0 <= k < parts@.len() ==> f.ensures((&items(*tree)[k],), #[trigger] parts@[k]),
                decreases i,
            {
                i = i - 1;
                let s = f(&v[i]);
                assert(items(*tree)[parts@.len() as int] == v@[i as int]);
                parts.push(s);
            }
        },
        NilTree::Num(n) => {
            let mut i: usize = 0;
            while i < *n
                invariant
                    i <= *n,
                    *tree == NilTree::Num(*n),
                    forall|t: &NilTree| #[trigger] f.requires((t,)),
                    parts@.len() == i,
                    forall|k: int| 0 <= k < parts@.len() ==> f.ensures((&items(*tree)[k],), #[trigger] parts@[k]),
                decreases *n - i,
            {
                let s = f(&NilTree::Nil);
                assert(items(*tree)[i as int] == NilTree::Nil);
                parts.push(s);
                i = i + 1;
            }
        },
    }
    let res = bracket_list(&parts);
    assert(parts@.len() == items(*tree).len());
    res
}

/// Writes the list that `tree` stands for as a list of numbers: each element in
/// decimal, or `NaN` where it does not stand for a number.
pub fn format_list_ints(tree: &NilTree) -> (res: String)
    ensures
        res@ == list_ints_text(tree@),
{
    let res = format_list_f(tree, parse_num_str);
    proof {
        let outs = choose|outs: Seq<String>|
            #![trigger string_views(outs)]
            {
                &&& outs.len() == items(*tree).len()
                &&& forall|i: int| 0 <= i < outs.len() ==> call_ensures(parse_num_str, (&items(*tree)[i],), #[trigger] outs[i])
                &&& res@ == bracketed(string_views(outs))
            };
        lemma_items_view(*tree);
        assert(string_views(outs) =~= tree@.elems().map_values(|e: Tree| num_text(e))) by {
            assert forall|i: int| 0 <= i < outs.len() implies #[trigger] string_views(outs)[i]
                == tree@.elems().map_values(|e: Tree| num_text(e))[i] by {
                assert(call_ensures(parse_num_str, (&items(*tree)[i],), outs[i]));
            }
        }
    }
    res
}

/// The text of `t` as a nested list of numbers: each element that stands for a number
/// is written in decimal, each other element as a nested list in turn.
pub open spec fn nested_text(t: Tree) -> Seq<char>
    decreases t, 1int,
{
    bracketed(nested_parts(t))
}

/// The texts of the elements of `t` in `nested_text(t)`, one per element.
pub open spec fn nested_parts(t: Tree) -> Seq<Seq<char>>
    decreases t, 0int,
{
    Seq::new(
        t.elems().len(),
        |i: int|
            if 0 <= i < t.elems().len() {
                if t.elems()[i].number() is Some {
                    num_text(t.elems()[i])
                } else {
                    nested_text(t.elems()[i])
                }
            } else {
                Seq::empty()
            },
    )
}

/// The text of one element of a nested list of numbers.
pub open spec fn nested_item_text(e: Tree) -> Seq<char> {
    if e.number() is Some {
        num_text(e)
    } else {
        nested_text(e)
    }
}

/// The parts of `nested_text(t)`, one per element.
proof fn lemma_nested_text_parts(t: Tree, parts: Seq<Seq<char>>)
    requires
        parts.len() == t.elems().len(),
        forall|k: int| 0 <= k < parts.len() ==> #[trigger] parts[k] == nested_item_text(t.elems()[k]),
    ensures
        nested_text(t) == bracketed(parts),
{
    assert(nested_parts(t) =~= parts);
}

/// Writes the list that `tree` stands for as a nested list of numbers: an element that
/// stands for a number in decimal, any other element as a nested list in turn.
pub fn format_nest_list_ints(tree: &NilTree) -> (res: String)
    ensures
        res@ == nested_text(tree@),
    decreases tree,
{
    broadcast use vstd::std_specs::vec::group_vec_axioms;

    let mut parts: Vec<String> = Vec::new();
    match tree {
        NilTree::Nil => {},
        NilTree::List(v) => {
            let mut i: usize = v.len();
            while i > 0
                invariant
                    i <= v@.len(),
                    *tree == NilTree::List(*v),
                    parts@.len() == v@.len() - i,
                    forall|k: int| 0 <= k < parts@.len() ==> (#[trigger] parts@[k])@ == nested_item_text(items(*tree)[k]@),
                decreases i,
            {
                i = i - 1;
                assert(items(*tree)[parts@.len() as int] == v@[i as int]);
                proof {
                    assert(decreases_to!(*v => v@[i as int]));
                    assert(decreases_to!(*tree => (*tree)->List_0));
                    assert(decreases_to!(*tree => v@[i as int]));
                }
                let e = &v[i];
                let s = if parse_num(e).is_ok() {
                    parse_num_str(e)
                } else {
                    format_nest_list_ints(e)
                };
                parts.push(s);
            }
        },
        NilTree::Num(n) => {
            let mut i: usize = 0;
            while i < *n
                invariant
                    i <= *n,
                    *tree == NilTree::Num(*n),
                    parts@.len() == i,
                    forall|k: int| 0 <= k < parts@.len() ==> (#[trigger] parts@[k])@ == nested_item_text(items(*tree)[k]@),
                decreases *n - i,
            {
                assert(items(*tree)[i as int] == NilTree::Nil);
                parts.push(parse_num_str(&NilTree::Nil));
                i = i + 1;
            }
        },
    }
    let res = bracket_list(&parts);
    proof {
        lemma_items_view(*tree);
        lemma_nested_text_parts(tree@, string_views(parts@));
    }
    res
}

/// The text of the number `n` where atoms may stand: the atom's name if `n` is the
/// number of an atom, else `n` in decimal.
pub open spec fn num_or_atom_text(n: nat) -> Seq<char> {
    if n < 255 && atom_with_code(n) is Some {
        atom_name(atom_with_code(n)->0)
    } else {
        decimal(n)
    }
}

/// The text of a tree as a number or an atom, or `NaN`.
pub open spec fn num_or_atom_item_text(t: Tree) -> Seq<char> {
    match t.number() {
        Some(n) => num_or_atom_text(n),
        None => nan_text(),
    }
}

/// Writes `n` as the atom whose number it is, or else in decimal.
pub fn num_to_num_or_atom_str(n: usize) -> (s: String)
    ensures
        s@ == num_or_atom_text(n as nat),
        atom_with_code(n as nat) matches Some(a) ==> s@ == atom_name(a),
        atom_with_code(n as nat) is None ==> s@ == decimal(n as nat),
{
    proof {
        crate::atoms::lemma_atom_codes_small(n as nat);
    }
    if n < 255 {
        if let Some(atom) = Atom::from_code(n as u8) {
            return atom.to_string();
        }
    }
    decimal_string(n)
}

/// Writes the number that `tree` stands for as an atom or in decimal, or `NaN`.
pub fn parse_num_or_atom_str(tree: &NilTree) -> (s: String)
    ensures
        s@ == num_or_atom_item_text(tree@),
        tree@.number() matches Some(n) ==> s@ == num_or_atom_text(n),
        tree@.number() matches Some(n) ==> (atom_with_code(n) is None ==> s@ == decimal(n)),
        tree@.number() is None ==> s@ == nan_text(),
{
    match parse_num(tree) {
        Ok(n) => num_to_num_or_atom_str(n),
        Err(e) => e.to_string(),
    }
}

/// The pattern of the head of a list whose first element is written as a number:
/// `[`, the digits, `,`.
pub open spec fn atom_head_pattern() -> Seq<char> {
    "\\[\\s*(\\d*)\\s*,"@
}

/// What a matched list head with the digits `digits` is replaced by: `[`, the number as
/// an atom or in decimal, `,`. Digits that do not read as a `usize` are kept.
pub open spec fn atom_head_text(digits: Seq<char>) -> Seq<char> {
    match decimal_value(digits) {
        Some(n) => seq!['['] + num_or_atom_text(n as nat) + seq![','],
        None => seq!['['] + digits + seq![','],
    }
}

/// The replacement for one matched list head whose first element is written `digits`.
pub fn atom_head_replacement(digits: &str) -> (s: String)
    ensures
        s@ == atom_head_text(digits@),
        decimal_value(digits@) matches Some(n) ==> s@ == seq!['['] + num_or_atom_text(n as nat) + seq![','],
        decimal_value(digits@) matches Some(n) ==> (atom_with_code(n as nat) is None
            ==> s@ == seq!['['] + decimal(n as nat) + seq![',']),
        decimal_value(digits@) matches Some(n) ==> (atom_with_code(n as nat) matches Some(a)
            ==> s@ == seq!['['] + atom_name(a) + seq![',']),
{
    proof {
        if let Some(n) = decimal_value(digits@) {
            crate::atoms::lemma_atom_codes_small(n as nat);
        }
    }
    proof {
        reveal_strlit("[");
        reveal_strlit(",");
    }
    let mut s = String::from_str("[");
    match parse_decimal(digits) {
        Some(n) => {
            let name = num_to_num_or_atom_str(n);
            s.append(name.as_str());
        },
        None => {
            s.append(digits);
        },
    }
    s.append(",");
    s
}

/// Whether `regex::Regex::new` accepts `pattern`.
pub uninterp spec fn regex_compiles(pattern: Seq<char>) -> bool;

/// What `regex::Regex::replace_all` gives for the regex built from `pattern` on `text`,
/// each match replaced by `atom_head_replacement` of its first group.
pub uninterp spec fn regex_atom_heads_replaced(pattern: Seq<char>, text: Seq<char>) -> Seq<char>;

/// Calls `regex::Regex::new` on `pattern` and, when it succeeds, `replace_all` on `text`
/// with a replacement that hands the first group of each match to
/// `atom_head_replacement`. Claims: the result is present exactly when the pattern
/// compiles, and is then the named result of the replacement on these arguments.
#[verifier::external_body]
fn replace_atom_heads(pattern: &str, text: &str) -> (res: Option<String>)
    ensures
        res is Some <==> regex_compiles(pattern@),
        res matches Some(r) ==> r@ == regex_atom_heads_replaced(pattern@, text@),
{
    regex::Regex::new(pattern).ok().map(
        |re| re.replace_all(text, |caps: &regex::Captures<'_>| atom_head_replacement(caps.get(1).map_or("", |m| m.as_str()))).into_owned(),
    )
}

/// The text of `t` as a nested list of atoms: the nested list of numbers, in which each
/// list whose first element is a number has that number written as an atom where it is
/// the number of one.
pub open spec fn nested_atoms_text(t: Tree) -> Seq<char> {
    if regex_compiles(atom_head_pattern()) {
        regex_atom_heads_replaced(atom_head_pattern(), nested_text(t))
    } else {
        nested_text(t)
    }
}

/// Writes the list that `tree` stands for as a nested list in which the first element of
/// each list of two or more elements, where it is the number of an atom, is written as
/// that atom. Should the regex engine refuse the pattern, the nested list of numbers is
/// given unchanged.
pub fn format_nest_list_atoms(tree: &NilTree) -> (res: String)
    ensures
        res@ == nested_atoms_text(tree@),
{
    let s = format_nest_list_ints(tree);
    match replace_atom_heads("\\[\\s*(\\d*)\\s*,", s.as_str()) {
        Some(r) => r,
        None => s,
    }
}

/// The line that shows one recorded assignment: the program's name, the variable, ` = `,
/// and the text of the value.
pub open spec fn history_line(prog: Seq<char>, var: Seq<char>, val_text: Seq<char>) -> Seq<char> {
    prog + seq![' '] + var + seq![' ', '=', ' '] + val_text
}

/// The lines that show the recorded assignments, the value of entry `i` written as `outs[i]`.
pub open spec fn history_lines(history: Seq<(String, String, NilTree)>, outs: Seq<String>) -> Seq<Seq<char>> {
    Seq::new(history.len(), |i: int| history_line(history[i].0@, history[i].1@, outs[i]@))
}

/// The text shown for a run: with `debug`, the history lines and an empty line, then the
/// text of the result; the lines separated by newlines.
pub open spec fn debug_output_text(debug: bool, lines: Seq<Seq<char>>, result: Seq<char>) -> Seq<char> {
    let shown = if debug { lines.push(Seq::empty()) } else { Seq::empty() };
    join(shown.push(result), seq!['\n'])
}

/// Shows the result of a run, each value written by `f`; with `debug`, first each recorded
/// assignment of the run (`prog var = value`) and an empty line.
pub fn generate_output_with_debug<F: Fn(&NilTree) -> String>(
    output_tree: &NilTree,
    history: &Vec<(String, String, NilTree)>,
    debug: bool,
    f: F,
) -> (res: Output)
    requires
        forall|t: &NilTree| #[trigger] f.requires((t,)),
    ensures
        res is Text,
        exists|outs: Seq<String>, last: String|
            #![trigger history_lines(history@, outs), last@]
            {
                &&& debug ==> outs.len() == history@.len()
                &&& debug ==> history_lines(history@, outs).len() == history@.len()
                &&& debug ==> forall|i: int| 0 <= i < history@.len() ==> f.ensures((&history@[i].2,), #[trigger] outs[i])
                &&& f.ensures((output_tree,), last)
                &&& res->Text_0@ == debug_output_text(debug, history_lines(history@, outs), last@)
            },
{
    let mut lines: Vec<String> = Vec::new();
    let ghost mut outs: Seq<String> = Seq::empty();
    if debug {
        let mut i: usize = 0;
        while i < history.len()
            invariant
                i <= history@.len(),
                forall|t: &NilTree| #[trigger] f.requires((t,)),
                outs.len() == i,
                lines@.len() == i,
                forall|k: int| 0 <= k < i ==> f.ensures((&history@[k].2,), #[trigger] outs[k]),
                forall|k: int| 0 <= k < i ==> (#[trigger] lines@[k])@ == history_line(history@[k].0@, history@[k].1@, outs[k]@),
            decreases history@.len() - i,
        {
            let entry = &history[i];
            let text = f(&entry.2);
            let mut line = String::new();
            line.append(entry.0.as_str());
            line.append(" ");
            line.append(entry.1.as_str());
            line.append(" = ");
            line.append(text.as_str());
            proof {
                reveal_strlit(" ");
                reveal_strlit(" = ");
                assert(line@ =~= history_line(history@[i as int].0@, history@[i as int].1@, text@));
                outs = outs.push(text);
            }
            lines.push(line);
            i = i + 1;
        }
        lines.push(String::new());
    }
    let last = f(output_tree);
    let ghost last_text = last;
    lines.push(last);
    proof {
        reveal_strlit("\n");
        let shown = if debug { history_lines(history@, outs).push(Seq::empty()) } else { Seq::empty() };
        assert(string_views(lines@) =~= shown.push(last_text@));
        assert("\n"@ =~= seq!['\n']);
    }
    let res = Output::Text(join_strings(&lines, "\n"));
    assert(res->Text_0@ == debug_output_text(debug, history_lines(history@, outs), last_text@));
    res
}

} // verus!
