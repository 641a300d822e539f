use vstd::prelude::*;

verus! {

/// The value of a `NilTree`: the same three forms, with the elements of a list held as values
/// in the same order as in the tree.
#[verifier::ext_equal]
pub enum Tree {
    Nil,
    List(Seq<Tree>),
    Num(nat),
}

/// A binary tree over `nil`, held in one of three representations.
#[derive(Debug)]
pub enum NilTree {
    Nil,
    /// A list whose head is the last element of the vector.
    List(Vec<NilTree>),
    /// The number `n`, which is the list of `n` copies of `nil`.
    Num(usize),
}

/// The value that `t` holds.
pub open spec fn model(t: NilTree) -> Tree
    decreases t,
{
    match t {
        NilTree::Nil => Tree::Nil,
        NilTree::Num(n) => Tree::Num(n as nat),
        NilTree::List(v) => Tree::List(
            Seq::new(v@.len(), |i: int| if 0 <= i < v@.len() { model(v@[i]) } else { Tree::Nil }),
        ),
    }
}

impl Tree {
    /// The elements of the list this tree stands for, head first.
    pub open spec fn elems(self) -> Seq<Tree> {
        match self {
            Tree::Nil => Seq::empty(),
            Tree::Num(n) => Seq::new(n, |i: int| Tree::Nil),
            Tree::List(s) => s.reverse(),
        }
    }

    /// The number this tree stands for, if it stands for one: a list all of whose
    /// elements are nil stands for its length.
    pub open spec fn number(self) -> Option<nat> {
        match self {
            Tree::Nil => Some(0),
            Tree::Num(n) => Some(n),
            Tree::List(s) => if forall|i: int| 0 <= i < s.len() ==> s[i] == Tree::Nil {
                Some(s.len())
            } else {
                None
            },
        }
    }

    /// Every element stands for a number.
    pub open spec fn is_number_list(self) -> bool {
        forall|i: int| 0 <= i < self.elems().len() ==> (#[trigger] self.elems()[i]).number() is Some
    }

    /// Every element is a list of numbers.
    pub open spec fn is_number_list_list(self) -> bool {
        forall|i: int| 0 <= i < self.elems().len() ==> (#[trigger] self.elems()[i]).is_number_list()
    }
}

/// The elements of the list that `t` stands for, head first, as they are held in `t`.
pub open spec fn items(t: NilTree) -> Seq<NilTree> {
    match t {
        NilTree::Nil => Seq::empty(),
        NilTree::Num(n) => Seq::new(n as nat, |i: int| NilTree::Nil),
        NilTree::List(v) => v@.reverse(),
    }
}

/// The held elements are the elements of the value.
pub proof fn lemma_items_view(t: NilTree)
    ensures
        items(t).len() == t@.elems().len(),
        forall|i: int| 0 <= i < items(t).len() ==> (#[trigger] items(t)[i])@ == t@.elems()[i],
{
}

/// For a list, "every element" may be read in the order in which the elements are held.
pub proof fn lemma_list_predicates(s: Seq<Tree>)
    ensures
        Tree::List(s).is_number_list() <==> forall|j: int| 0 <= j < s.len() ==> (#[trigger] s[j]).number() is Some,
        Tree::List(s).is_number_list_list() <==> forall|j: int| 0 <= j < s.len() ==> (#[trigger] s[j]).is_number_list(),
{
    let e = Tree::List(s).elems();
    assert(e.len() == s.len());
    assert(forall|i: int| 0 <= i < s.len() ==> #[trigger] e[i] == s[s.len() - 1 - i]);
    if forall|j: int| 0 <= j < s.len() ==> (#[trigger] s[j]).number() is Some {
        assert forall|i: int| 0 <= i < e.len() implies (#[trigger] e[i]).number() is Some by {
            assert(s[s.len() - 1 - i].number() is Some);
        }
    }
    if Tree::List(s).is_number_list() {
        assert forall|j: int| 0 <= j < s.len() implies (#[trigger] s[j]).number() is Some by {
            assert(e[s.len() - 1 - j] == s[j]);
        }
    }
    if forall|j: int| 0 <= j < s.len() ==> (#[trigger] s[j]).is_number_list() {
        assert forall|i: int| 0 <= i < e.len() implies (#[trigger] e[i]).is_number_list() by {
            assert(s[s.len() - 1 - i].is_number_list());
        }
    }
    if Tree::List(s).is_number_list_list() {
        assert forall|j: int| 0 <= j < s.len() implies (#[trigger] s[j]).is_number_list() by {
            assert(e[s.len() - 1 - j] == s[j]);
        }
    }
}

/// The value of a held list is the list of the values of its elements, in the same order.
pub proof fn lemma_list_view(t: NilTree)
    requires
        t is List,
    ensures
        t@ is List,
        t@->List_0.len() == t->List_0@.len(),
        forall|j: int| 0 <= j < t->List_0@.len() ==> #[trigger] t@->List_0[j] == t->List_0@[j]@,
{
}

impl View for NilTree {
    type V = Tree;

    open spec fn view(&self) -> Tree {
        model(*self)
    }
}

impl NilTree {
    /// The list whose elements, head first, are those of `v` from last to first.
    pub fn list(v: Vec<NilTree>) -> (r: NilTree)
        ensures
            r == NilTree::List(v),
    {
        NilTree::List(v)
    }
}

/// The list whose head is `head` and whose tail is the list `tail`.
pub fn cons(head: &NilTree, tail: &NilTree) -> (r: NilTree)
    ensures
        r@.elems() == seq![head@] + tail@.elems(),
{
    let mut w: Vec<NilTree> = Vec::new();
    match tail {
        NilTree::Nil => {},
        NilTree::Num(n) => {
            let mut i: usize = 0;
            while i < *n
                invariant
                    i <= *n,
                    w@.len() == i,
                    forall|j: int| 0 <= j < i ==> #[trigger] w@[j] == NilTree::Nil,
                decreases *n - i,
            {
                w.push(NilTree::Nil);
                i = i + 1;
            }
        },
        NilTree::List(v) => {
            let mut i: usize = 0;
            while i < v.len()
                invariant
                    i <= v@.len(),
                    w@.len() == i,
                    forall|j: int| 0 <= j < i ==> model(#[trigger] w@[j]) == model(v@[j]),
                decreases v@.len() - i,
            {
                w.push(v[i].clone());
                i = i + 1;
            }
        },
    }
    let ghost stored = Seq::new(w@.len(), |j: int| model(w@[j]));
    assert(stored =~= tail@.elems().reverse());
    w.push(head.clone());
    let r = NilTree::List(w);
    assert(model(r)->List_0 =~= stored.push(head@));
    assert(r@.elems() =~= seq![head@] + tail@.elems());
    r
}

impl Clone for NilTree {
    fn clone(&self) -> (r: NilTree)
        ensures
            r@ == self@,
        decreases self,
    {
        broadcast use vstd::std_specs::vec::group_vec_axioms;

        match self {
            NilTree::Nil => NilTree::Nil,
            NilTree::Num(n) => NilTree::Num(*n),
            NilTree::List(v) => {
                let mut w: Vec<NilTree> = Vec::new();
                let mut i: usize = 0;
                while i < v.len()
                    invariant
                        i <= v@.len(),
                        *self == NilTree::List(*v),
                        w@.len() == i,
                        forall|j: int| 0 <= j < i ==> model(#[trigger] w@[j]) == model(v@[j]),
                    decreases v@.len() - i,
                {
                    proof {
                        assert(decreases_to!(*v => v@[i as int]));
                        assert(decreases_to!(*self => (*self)->List_0));
                        assert(decreases_to!(*self => v@[i as int]));
                    }
                    let c = v[i].clone();
                    w.push(c);
                    i = i + 1;
                }
                let r = NilTree::List(w);
                let ghost sw = Seq::new(w@.len(), |k: int| if 0 <= k < w@.len() { model(w@[k]) } else { Tree::Nil });
                let ghost sv = Seq::new(v@.len(), |k: int| if 0 <= k < v@.len() { model(v@[k]) } else { Tree::Nil });
                assert(sw =~= sv);
                                assert(model(*self)->List_0 =~= sv);
                assert(model(r)->List_0 =~= sw);
                r
            }
        }
    }
}

} // verus!
