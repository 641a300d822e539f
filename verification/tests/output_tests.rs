use whilers::niltree::{cons, NilTree};
use whilers::output::{is_list_of_list_of_nums, is_list_of_nums};

/// The list with the given elements, head first.
fn lst(elems: Vec<NilTree>) -> NilTree {
    let mut held = elems;
    held.reverse();
    NilTree::list(held)
}

/// The list of the given numbers, head first.
fn nums(ns: &[usize]) -> NilTree {
    lst(ns.iter().map(|n| NilTree::Num(*n)).collect())
}

// ── is_list_of_nums ────────────────────────────────────────────────────

#[test]
fn list_of_nums_nil_is_empty_list() {
    assert!(is_list_of_nums(&NilTree::Nil));
}

#[test]
fn list_of_nums_num_zero_is_nil() {
    // Num(0) == Nil == []
    assert!(is_list_of_nums(&NilTree::Num(0)));
}

#[test]
fn list_of_nums_num_shorthand() {
    // Num(n) is shorthand for [0,0,...,0] with n elements
    assert!(is_list_of_nums(&NilTree::Num(3)));
    assert!(is_list_of_nums(&NilTree::Num(100)));
}

#[test]
fn list_of_nums_empty_list_variant() {
    assert!(is_list_of_nums(&NilTree::list(vec![])));
}

#[test]
fn list_of_nums_all_nil_elements() {
    // [nil, nil] = [0, 0]
    let tree = NilTree::list(vec![NilTree::Nil, NilTree::Nil]);
    assert!(is_list_of_nums(&tree));
}

#[test]
fn list_of_nums_all_num_elements() {
    // [Num(1), Num(2), Num(3)] — each element is a plain number
    let tree = NilTree::list(vec![NilTree::Num(3), NilTree::Num(2), NilTree::Num(1)]);
    assert!(is_list_of_nums(&tree));
}

#[test]
fn list_of_nums_cons_built() {
    // cons-build [0] and [1, 2, 3]
    let zero_list = cons(&NilTree::Nil, &NilTree::Nil); // = [0]
    assert!(is_list_of_nums(&zero_list));

    let three = nums(&[1, 2, 3]); // [1,2,3]
    assert!(is_list_of_nums(&three));
}

#[test]
fn list_of_nums_parsed_integers() {
    assert!(is_list_of_nums(&nums(&[0])));
    assert!(is_list_of_nums(&nums(&[0, 1, 2, 3])));
    assert!(is_list_of_nums(&nums(&[5, 10, 15])));
}

#[test]
fn list_of_nums_rejects_nested_list() {
    // [[1,2],[3,4]] — top-level elements are lists, not numbers
    assert!(!is_list_of_nums(&lst(vec![nums(&[1, 2]), nums(&[3, 4])])));
}

#[test]
fn list_of_nums_rejects_doubly_nested() {
    // [[[1]]] — deeply nested
    assert!(!is_list_of_nums(&lst(vec![lst(vec![nums(&[1])])])));
}

#[test]
fn list_of_nums_rejects_list_with_non_num_element() {
    // List containing [1] as an element: [1] = List([Num(1)]),
    // but parse_num(List([Num(1)])) fails because Num(1) ≠ Nil
    let inner = nums(&[1]); // = List([Num(1)])
    let outer = NilTree::list(vec![inner]);
    assert!(!is_list_of_nums(&outer));
}

// ── is_list_of_list_of_nums ────────────────────────────────────────────

#[test]
fn list_of_list_of_nums_nil_is_empty_outer_list() {
    assert!(is_list_of_list_of_nums(&NilTree::Nil));
}

#[test]
fn list_of_list_of_nums_num_shorthand() {
    // Num(n) ≡ [Nil; n], and each Nil is a valid (empty) list of numbers
    assert!(is_list_of_list_of_nums(&NilTree::Num(0)));
    assert!(is_list_of_list_of_nums(&NilTree::Num(3)));
}

#[test]
fn list_of_list_of_nums_empty_list_variant() {
    assert!(is_list_of_list_of_nums(&NilTree::list(vec![])));
}

#[test]
fn list_of_list_of_nums_typical() {
    // [[1,2],[3,4]]
    assert!(is_list_of_list_of_nums(&lst(vec![nums(&[1, 2]), nums(&[3, 4])])));
}

#[test]
fn list_of_list_of_nums_with_empty_sublists() {
    // [[],[0],[1,2,3]]
    assert!(is_list_of_list_of_nums(&lst(vec![
        NilTree::Nil,
        nums(&[0]),
        nums(&[1, 2, 3])
    ])));
}

#[test]
fn list_of_list_of_nums_single_sublist() {
    // [[5]]
    assert!(is_list_of_list_of_nums(&lst(vec![nums(&[5])])));
}

#[test]
fn list_of_list_of_nums_integers_are_valid_sublists() {
    // [1,2,3] — each integer Num(n) is also a valid list of numbers [0,0,...,0]
    // so [1,2,3] parses as BOTH a list of numbers AND a list of lists of numbers
    assert!(is_list_of_list_of_nums(&nums(&[1, 2, 3])));
}

#[test]
fn list_of_list_of_nums_rejects_triple_nesting() {
    // [[[1]]] — the element [[1]] contains [1], and [1] ≠ a number
    assert!(!is_list_of_list_of_nums(&lst(vec![lst(vec![nums(&[1])])])));
}

#[test]
fn list_of_list_of_nums_rejects_non_num_grandchild() {
    // [[1,[2]]] — [2] is not a number → inner list is not a list-of-nums
    let inner = lst(vec![NilTree::Num(1), nums(&[2])]);
    assert!(!is_list_of_list_of_nums(&lst(vec![inner])));
}

// ── overlap: values that satisfy both predicates ────────────────────────

#[test]
fn overlap_nil_satisfies_both() {
    assert!(is_list_of_nums(&NilTree::Nil));
    assert!(is_list_of_list_of_nums(&NilTree::Nil));
}

#[test]
fn overlap_flat_int_list_satisfies_both() {
    // A flat integer list like [1,2,3] is a list-of-nums AND a list-of-lists-of-nums
    // because each integer Num(n) can be read as the list [0,...,0]
    let t = nums(&[1, 2, 3]);
    assert!(is_list_of_nums(&t));
    assert!(is_list_of_list_of_nums(&t));
}

#[test]
fn exclusive_nested_list_only_list_of_list() {
    // [[1,2],[3]] is a list-of-lists-of-nums but NOT a list-of-nums
    let t = lst(vec![nums(&[1, 2]), nums(&[3])]);
    assert!(!is_list_of_nums(&t));
    assert!(is_list_of_list_of_nums(&t));
}
