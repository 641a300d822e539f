use vstd::prelude::*;

use crate::niltree::{NilTree, Tree, items, lemma_items_view, model};
use crate::output::parse_num;

verus! {

/// `ns` holds, in order, the numbers that the elements of `t` stand for.
pub open spec fn numbers_of(t: Tree, ns: Seq<usize>) -> bool {
    &&& ns.len() == t.elems().len()
    &&& forall|i: int| 0 <= i < ns.len() ==> t.elems()[i].number() == Some(#[trigger] ns[i] as nat)
}

/// The elements of the list that `tree` stands for, head first.
pub fn as_list_elements(tree: &NilTree) -> (res: Vec<NilTree>)
    ensures
        res@.len() == tree@.elems().len(),
        forall|i: int| 0 <= i < res@.len() ==> (#[trigger] res@[i])@ == tree@.elems()[i],
{
    proof {
        lemma_items_view(*tree);
    }
    let mut res: Vec<NilTree> = Vec::new();
    match tree {
        NilTree::Nil => {},
        NilTree::Num(n) => {
            let mut i: usize = 0;
            while i < *n
                invariant
                    i <= *n,
                    *tree == NilTree::Num(*n),
                    res@.len() == i,
                    forall|k: int| 0 <= k < res@.len() ==> model(#[trigger] res@[k]) == model(items(*tree)[k]),
                decreases *n - i,
            {
                res.push(NilTree::Nil);
                i = i + 1;
            }
        },
        NilTree::List(v) => {
            let mut i: usize = v.len();
            while i > 0
                invariant
                    i <= v@.len(),
                    *tree == NilTree::List(*v),
                    res@.len() == v@.len() - i,
                    forall|k: int| 0 <= k < res@.len() ==> model(#[trigger] res@[k]) == model(items(*tree)[k]),
                decreases i,
            {
                i = i - 1;
                assert(items(*tree)[res@.len() as int] == v@[i as int]);
                res.push(v[i].clone());
            }
        },
    }
    assert forall|k: int| 0 <= k < res@.len() implies (#[trigger] res@[k])@ == tree@.elems()[k] by {
        assert(items(*tree)[k]@ == tree@.elems()[k]);
    }
    res
}

/// The list that `tree` stands for as a list of numbers, if each element stands for one.
pub fn as_list_of_numbers(tree: &NilTree) -> (res: Option<Vec<usize>>)
    ensures
        res is Some <==> tree@.is_number_list(),
        res matches Some(ns) ==> numbers_of(tree@, ns@),
{
    let elems = as_list_elements(tree);
    let mut ns: Vec<usize> = Vec::new();
    let mut i: usize = 0;
    while i < elems.len()
        invariant
            i <= elems@.len(),
            elems@.len() == tree@.elems().len(),
            forall|k: int| 0 <= k < elems@.len() ==> (#[trigger] elems@[k])@ == tree@.elems()[k],
            ns@.len() == i,
            forall|k: int| 0 <= k < i ==> tree@.elems()[k].number() == Some(#[trigger] ns@[k] as nat),
        decreases elems@.len() - i,
    {
        match parse_num(&elems[i]) {
            Ok(n) => ns.push(n),
            Err(_) => {
                assert(elems@[i as int]@ == tree@.elems()[i as int]);
                return None;
            },
        }
        i = i + 1;
    }
    assert forall|k: int| 0 <= k < tree@.elems().len() implies (#[trigger] tree@.elems()[k]).number() is Some by {
        assert(tree@.elems()[k].number() == Some(ns@[k] as nat));
    }
    Some(ns)
}

/// The list that `tree` stands for as a list of lists of numbers, if each element is a
/// list of numbers.
pub fn as_list_of_lists_of_numbers(tree: &NilTree) -> (res: Option<Vec<Vec<usize>>>)
    ensures
        res is Some <==> tree@.is_number_list_list(),
        res matches Some(nss) ==> {
            &&& nss@.len() == tree@.elems().len()
            &&& forall|i: int| 0 <= i < nss@.len() ==> numbers_of(tree@.elems()[i], #[trigger] nss@[i]@)
        },
{
    let elems = as_list_elements(tree);
    let mut nss: Vec<Vec<usize>> = Vec::new();
    let mut i: usize = 0;
    while i < elems.len()
        invariant
            i <= elems@.len(),
            elems@.len() == tree@.elems().len(),
            forall|k: int| 0 <= k < elems@.len() ==> (#[trigger] elems@[k])@ == tree@.elems()[k],
            nss@.len() == i,
            forall|k: int| 0 <= k < i ==> numbers_of(tree@.elems()[k], #[trigger] nss@[k]@),
        decreases elems@.len() - i,
    {
        assert(elems@[i as int]@ == tree@.elems()[i as int]);
        match as_list_of_numbers(&elems[i]) {
            Some(ns) => nss.push(ns),
            None => {
                return None;
            },
        }
        i = i + 1;
    }
    assert forall|k: int| 0 <= k < tree@.elems().len() implies (#[trigger] tree@.elems()[k]).is_number_list() by {
        assert(numbers_of(tree@.elems()[k], nss@[k]@));
        let e = tree@.elems()[k];
        assert forall|j: int| 0 <= j < e.elems().len() implies (#[trigger] e.elems()[j]).number() is Some by {
            assert(e.elems()[j].number() == Some(nss@[k]@[j] as nat));
        }
    }
    Some(nss)
}

} // verus!
