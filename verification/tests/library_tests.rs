use whilers::atoms::Atom;
use whilers::listing::{as_list_elements, as_list_of_lists_of_numbers, as_list_of_numbers};
use whilers::niltree::{cons, NilTree};
use whilers::output::{
    atom_head_replacement, format_list_f, format_list_ints, format_nest_list_atoms,
    format_nest_list_ints, generate_output_with_debug, is_list_of_list_of_nums, is_list_of_nums,
    num_to_num_or_atom_str, parse_num, parse_num_or_atom_str, parse_num_str, Output,
    OutputFormat, ParseNumError,
};
use whilers::text::{decimal_string, join_strings, parse_decimal};

fn lst(elems: Vec<NilTree>) -> NilTree {
    let mut held = elems;
    held.reverse();
    NilTree::list(held)
}

fn nums(ns: &[usize]) -> NilTree {
    lst(ns.iter().map(|n| NilTree::Num(*n)).collect())
}

fn text(o: Output) -> String {
    match o {
        Output::Text(s) => s,
        other => panic!("not a text: {:?}", other),
    }
}

#[test]
fn parse_num_reads_each_representation() {
    assert_eq!(parse_num(&NilTree::Nil), Ok(0));
    assert_eq!(parse_num(&NilTree::Num(7)), Ok(7));
    assert_eq!(parse_num(&NilTree::list(vec![NilTree::Nil, NilTree::Nil, NilTree::Nil])), Ok(3));
    assert_eq!(parse_num(&NilTree::list(vec![])), Ok(0));
}

#[test]
fn parse_num_rejects_a_list_with_a_non_nil_element() {
    assert_eq!(parse_num(&nums(&[1])), Err(ParseNumError::NaN));
    assert_eq!(ParseNumError::NaN.to_string(), "NaN");
}

#[test]
fn parse_num_str_writes_decimal_or_nan() {
    assert_eq!(parse_num_str(&NilTree::Num(0)), "0");
    assert_eq!(parse_num_str(&NilTree::Num(42)), "42");
    assert_eq!(parse_num_str(&NilTree::Num(1234567890)), "1234567890");
    assert_eq!(parse_num_str(&NilTree::Num(usize::MAX)), usize::MAX.to_string());
    assert_eq!(parse_num_str(&nums(&[1, 2])), "NaN");
}

#[test]
fn decimal_string_matches_std() {
    for n in [0usize, 9, 10, 99, 100, 101, 65535, 1_000_000_007] {
        assert_eq!(decimal_string(n), n.to_string());
    }
}

#[test]
fn parse_decimal_reads_digits_only() {
    assert_eq!(parse_decimal("0"), Some(0));
    assert_eq!(parse_decimal("0042"), Some(42));
    assert_eq!(parse_decimal(&usize::MAX.to_string()), Some(usize::MAX));
    assert_eq!(parse_decimal(""), None);
    assert_eq!(parse_decimal("4a"), None);
    assert_eq!(parse_decimal("+4"), None);
    assert_eq!(parse_decimal("99999999999999999999999999"), None);
}

#[test]
fn decimal_reads_back() {
    for n in [0usize, 7, 10, 4096, usize::MAX] {
        assert_eq!(parse_decimal(&decimal_string(n)), Some(n));
    }
}

#[test]
fn join_strings_puts_separator_between() {
    let parts = vec!["a".to_string(), "bc".to_string(), "".to_string()];
    assert_eq!(join_strings(&parts, ", "), "a, bc, ");
    assert_eq!(join_strings(&vec![], ","), "");
}

#[test]
fn format_list_ints_examples() {
    assert_eq!(format_list_ints(&NilTree::Nil), "[]");
    assert_eq!(format_list_ints(&NilTree::Num(3)), "[0,0,0]");
    assert_eq!(format_list_ints(&nums(&[1, 2, 3])), "[1,2,3]");
    assert_eq!(format_list_ints(&lst(vec![nums(&[1]), NilTree::Num(2)])), "[NaN,2]");
}

#[test]
fn format_list_f_applies_the_function_to_each_element_head_first() {
    let s = format_list_f(&nums(&[4, 5]), |t: &NilTree| format!("<{}>", parse_num_str(t)));
    assert_eq!(s, "[<4>,<5>]");
}

#[test]
fn format_nest_list_ints_examples() {
    assert_eq!(format_nest_list_ints(&NilTree::Nil), "[]");
    assert_eq!(format_nest_list_ints(&NilTree::Num(2)), "[0,0]");
    let t = lst(vec![nums(&[1, 2]), nums(&[3])]);
    assert_eq!(format_nest_list_ints(&t), "[[1,2],[3]]");
    let u = lst(vec![NilTree::list(vec![NilTree::Nil, NilTree::Nil]), lst(vec![nums(&[7]), NilTree::Num(8)])]);
    assert_eq!(format_nest_list_ints(&u), "[2,[[7],8]]");
}

#[test]
fn nested_equals_flat_on_a_list_of_numbers() {
    let t = nums(&[3, 0, 12]);
    assert!(is_list_of_nums(&t));
    assert_eq!(format_nest_list_ints(&t), format_list_ints(&t));
}

#[test]
fn atoms_are_found_by_number() {
    assert_eq!(Atom::from_code(2), Some(Atom::Asgn));
    assert_eq!(Atom::from_code(43), Some(Atom::DoCons));
    assert_eq!(Atom::from_code(4), None);
    assert_eq!(Atom::Var.to_string(), "@var");
}

#[test]
fn num_to_num_or_atom_str_examples() {
    assert_eq!(num_to_num_or_atom_str(2), "@asgn");
    assert_eq!(num_to_num_or_atom_str(17), "@var");
    assert_eq!(num_to_num_or_atom_str(4), "4");
    assert_eq!(num_to_num_or_atom_str(300), "300");
}

#[test]
fn parse_num_or_atom_str_examples() {
    assert_eq!(parse_num_or_atom_str(&NilTree::Num(43)), "@doCons");
    assert_eq!(parse_num_or_atom_str(&NilTree::Num(44)), "44");
    assert_eq!(parse_num_or_atom_str(&nums(&[1])), "NaN");
}

#[test]
fn atom_head_replacement_examples() {
    assert_eq!(atom_head_replacement("5"), "[@while,");
    assert_eq!(atom_head_replacement("6"), "[6,");
    assert_eq!(atom_head_replacement("007"), "[@doWhile,");
    assert_eq!(atom_head_replacement(""), "[,");
}

#[test]
fn format_nest_list_atoms_names_list_heads() {
    let t = lst(vec![NilTree::Num(2), NilTree::Num(0)]);
    assert_eq!(format_nest_list_atoms(&t), "[@asgn,0]");
    let u = lst(vec![lst(vec![NilTree::Num(5), lst(vec![NilTree::Num(17), NilTree::Num(1)])]), NilTree::Num(2)]);
    assert_eq!(format_nest_list_atoms(&u), "[[@while,[@var,1]],2]");
}

#[test]
fn format_nest_list_atoms_keeps_other_numbers() {
    let t = lst(vec![NilTree::Num(4), NilTree::Num(2)]);
    assert_eq!(format_nest_list_atoms(&t), "[4,2]");
    assert_eq!(format_nest_list_atoms(&nums(&[2])), "[2]");
}

#[test]
fn cons_puts_the_head_first() {
    let t = cons(&NilTree::Num(1), &nums(&[2, 3]));
    assert_eq!(format_list_ints(&t), "[1,2,3]");
    let z = cons(&NilTree::Nil, &NilTree::Nil);
    assert_eq!(format_list_ints(&z), "[0]");
    assert_eq!(parse_num(&z), Ok(1));
    let n = cons(&NilTree::Nil, &NilTree::Num(2));
    assert_eq!(parse_num(&n), Ok(3));
}

#[test]
fn clone_keeps_the_value() {
    let t = lst(vec![nums(&[1, 2]), NilTree::Num(3)]);
    let c = t.clone();
    assert_eq!(format_nest_list_ints(&c), format_nest_list_ints(&t));
}

#[test]
fn as_list_elements_are_head_first() {
    let t = nums(&[4, 5, 6]);
    let e = as_list_elements(&t);
    assert_eq!(e.len(), 3);
    assert_eq!(parse_num(&e[0]), Ok(4));
    assert_eq!(parse_num(&e[2]), Ok(6));
    assert_eq!(as_list_elements(&NilTree::Num(2)).len(), 2);
    assert_eq!(as_list_elements(&NilTree::Nil).len(), 0);
}

#[test]
fn as_list_of_numbers_examples() {
    assert_eq!(as_list_of_numbers(&nums(&[1, 2, 3])), Some(vec![1, 2, 3]));
    assert_eq!(as_list_of_numbers(&NilTree::Num(2)), Some(vec![0, 0]));
    assert_eq!(as_list_of_numbers(&lst(vec![nums(&[1])])), None);
}

#[test]
fn as_list_of_lists_of_numbers_examples() {
    let t = lst(vec![nums(&[1, 2]), nums(&[3])]);
    assert_eq!(as_list_of_lists_of_numbers(&t), Some(vec![vec![1, 2], vec![3]]));
    assert_eq!(as_list_of_lists_of_numbers(&nums(&[2, 0])), Some(vec![vec![0, 0], vec![]]));
    assert_eq!(as_list_of_lists_of_numbers(&lst(vec![lst(vec![nums(&[1])])])), None);
}

#[test]
fn as_list_functions_agree_with_the_predicates() {
    let samples = vec![
        NilTree::Nil,
        NilTree::Num(3),
        nums(&[1, 2]),
        lst(vec![nums(&[1, 2]), nums(&[3])]),
        lst(vec![lst(vec![nums(&[1])])]),
    ];
    for t in samples.iter() {
        assert_eq!(as_list_of_numbers(t).is_some(), is_list_of_nums(t));
        assert_eq!(as_list_of_lists_of_numbers(t).is_some(), is_list_of_list_of_nums(t));
        if is_list_of_nums(t) {
            assert!(is_list_of_list_of_nums(t));
        }
    }
}

#[test]
fn a_number_is_a_list_of_numbers() {
    for t in [NilTree::Nil, NilTree::Num(5), NilTree::list(vec![NilTree::Nil])] {
        assert!(parse_num(&t).is_ok());
        assert!(is_list_of_nums(&t));
    }
}

#[test]
fn output_format_names() {
    assert_eq!(OutputFormat::NilTree.to_string(), "Nil Tree");
    assert_eq!(OutputFormat::Integer.to_string(), "Integer");
    assert_eq!(OutputFormat::ListOfIntegers.to_string(), "List of integers");
    assert_eq!(OutputFormat::NestedListOfIntegers.to_string(), "Nested list of integers");
    assert_eq!(OutputFormat::NestedListOfAtoms.to_string(), "Nested list of atoms");
    assert_eq!(OutputFormat::ProgramAsData.to_string(), "Program as data");
    assert_eq!(OutputFormat::CoreWhile.to_string(), "Core While");
}

#[test]
fn output_default_is_empty() {
    assert!(matches!(Output::default(), Output::Empty));
}

#[test]
fn generate_output_without_debug_shows_only_the_result() {
    let history = vec![("main".to_string(), "X".to_string(), NilTree::Num(1))];
    let out = generate_output_with_debug(&nums(&[1, 2]), &history, false, format_list_ints);
    assert_eq!(text(out), "[1,2]");
}

#[test]
fn generate_output_with_debug_shows_the_history_first() {
    let history = vec![
        ("main".to_string(), "X".to_string(), NilTree::Num(1)),
        ("add".to_string(), "Y".to_string(), NilTree::Nil),
    ];
    let out = generate_output_with_debug(&NilTree::Num(3), &history, true, parse_num_str);
    assert_eq!(text(out), "main X = 1\nadd Y = 0\n\n3");
    let none: Vec<(String, String, NilTree)> = vec![];
    let out = generate_output_with_debug(&NilTree::Num(3), &none, true, parse_num_str);
    assert_eq!(text(out), "\n3");
}
