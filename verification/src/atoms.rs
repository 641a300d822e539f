use vstd::prelude::*;

verus! {

/// The atoms of programs-as-data, each of which is written as a small number.
#[derive(Debug, PartialEq, Eq, Structural, Clone, Copy)]
pub enum Atom {
    Asgn,
    DoAsgn,
    While,
    DoWhile,
    If,
    DoIf,
    Var,
    Quote,
    Hd,
    DoHd,
    Tl,
    DoTl,
    Cons,
    DoCons,
}

/// The number that stands for `a`.
pub open spec fn atom_code(a: Atom) -> nat {
    match a {
        Atom::Asgn => 2,
        Atom::DoAsgn => 3,
        Atom::While => 5,
        Atom::DoWhile => 7,
        Atom::If => 11,
        Atom::DoIf => 13,
        Atom::Var => 17,
        Atom::Quote => 19,
        Atom::Hd => 23,
        Atom::DoHd => 29,
        Atom::Tl => 31,
        Atom::DoTl => 37,
        Atom::Cons => 41,
        Atom::DoCons => 43,
    }
}

/// The atom that the number `n` stands for, if any.
pub open spec fn atom_with_code(n: nat) -> Option<Atom> {
    if n == 2 {
        Some(Atom::Asgn)
    } else if n == 3 {
        Some(Atom::DoAsgn)
    } else if n == 5 {
        Some(Atom::While)
    } else if n == 7 {
        Some(Atom::DoWhile)
    } else if n == 11 {
        Some(Atom::If)
    } else if n == 13 {
        Some(Atom::DoIf)
    } else if n == 17 {
        Some(Atom::Var)
    } else if n == 19 {
        Some(Atom::Quote)
    } else if n == 23 {
        Some(Atom::Hd)
    } else if n == 29 {
        Some(Atom::DoHd)
    } else if n == 31 {
        Some(Atom::Tl)
    } else if n == 37 {
        Some(Atom::DoTl)
    } else if n == 41 {
        Some(Atom::Cons)
    } else if n == 43 {
        Some(Atom::DoCons)
    } else {
        None
    }
}

/// How `a` is written.
pub open spec fn atom_name(a: Atom) -> Seq<char> {
    match a {
        Atom::Asgn => "@asgn"@,
        Atom::DoAsgn => "@doAsgn"@,
        Atom::While => "@while"@,
        Atom::DoWhile => "@doWhile"@,
        Atom::If => "@if"@,
        Atom::DoIf => "@doIf"@,
        Atom::Var => "@var"@,
        Atom::Quote => "@quote"@,
        Atom::Hd => "@hd"@,
        Atom::DoHd => "@doHd"@,
        Atom::Tl => "@tl"@,
        Atom::DoTl => "@doTl"@,
        Atom::Cons => "@cons"@,
        Atom::DoCons => "@doCons"@,
    }
}

/// Each atom is found again from its number, and no two atoms share one.
pub proof fn lemma_atom_code_roundtrip(a: Atom)
    ensures
        atom_with_code(atom_code(a)) == Some(a),
{
}

/// A number stands for an atom exactly when it is the number of that atom.
pub proof fn lemma_atom_with_code(n: nat)
    ensures
        atom_with_code(n) matches Some(a) ==> atom_code(a) == n,
{
}

/// Every atom's number is below `u8::MAX`, so the byte range never hides an atom.
pub proof fn lemma_atom_codes_small(n: nat)
    ensures
        atom_with_code(n) is Some ==> n < 255,
{
}

/// The atoms, in the order in which they are declared, are numbered by the primes from
/// 2 to 43, and no other number stands for an atom.
pub proof fn law_atom_codes(n: nat)
    ensures
        seq![
            atom_code(Atom::Asgn), atom_code(Atom::DoAsgn), atom_code(Atom::While),
            atom_code(Atom::DoWhile), atom_code(Atom::If), atom_code(Atom::DoIf),
            atom_code(Atom::Var), atom_code(Atom::Quote), atom_code(Atom::Hd),
            atom_code(Atom::DoHd), atom_code(Atom::Tl), atom_code(Atom::DoTl),
            atom_code(Atom::Cons), atom_code(Atom::DoCons),
        ] =~= seq![2nat, 3, 5, 7, 11, 13, 17, 19, 23, 29, 31, 37, 41, 43],
        atom_with_code(n) is Some <==> exists|a: Atom| atom_code(a) == n,
{
    if atom_with_code(n) is Some {
        assert(atom_code(atom_with_code(n)->0) == n);
    }
    if exists|a: Atom| atom_code(a) == n {
        let a = choose|a: Atom| atom_code(a) == n;
        assert(atom_with_code(atom_code(a)) == Some(a));
    }
}

/// Distinct atoms are written differently.
pub proof fn law_atom_names_distinct(a: Atom, b: Atom)
    ensures
        atom_name(a) == atom_name(b) ==> a == b,
{
    reveal_strlit("@asgn");
    reveal_strlit("@doAsgn");
    reveal_strlit("@while");
    reveal_strlit("@doWhile");
    reveal_strlit("@if");
    reveal_strlit("@doIf");
    reveal_strlit("@var");
    reveal_strlit("@quote");
    reveal_strlit("@hd");
    reveal_strlit("@doHd");
    reveal_strlit("@tl");
    reveal_strlit("@doTl");
    reveal_strlit("@cons");
    reveal_strlit("@doCons");
    if atom_name(a) == atom_name(b) {
        let (x, y) = (atom_name(a), atom_name(b));
        assert(x.len() == y.len() && x[1] == y[1] && x[2] == y[2] && x[x.len() - 1] == y[y.len() - 1]);
    }
}

/// Each atom is written `@` and its own name: `@asgn`, `@doAsgn`, ..., `@tl`, `@doTl`, ....
pub proof fn law_atom_names_spelled(a: Atom)
    ensures
        atom_name(a)[0] == '@',
        a == Atom::Asgn ==> atom_name(a) =~= seq!['@', 'a', 's', 'g', 'n'],
        a == Atom::DoAsgn ==> atom_name(a) =~= seq!['@', 'd', 'o', 'A', 's', 'g', 'n'],
        a == Atom::While ==> atom_name(a) =~= seq!['@', 'w', 'h', 'i', 'l', 'e'],
        a == Atom::DoWhile ==> atom_name(a) =~= seq!['@', 'd', 'o', 'W', 'h', 'i', 'l', 'e'],
        a == Atom::If ==> atom_name(a) =~= seq!['@', 'i', 'f'],
        a == Atom::DoIf ==> atom_name(a) =~= seq!['@', 'd', 'o', 'I', 'f'],
        a == Atom::Var ==> atom_name(a) =~= seq!['@', 'v', 'a', 'r'],
        a == Atom::Quote ==> atom_name(a) =~= seq!['@', 'q', 'u', 'o', 't', 'e'],
        a == Atom::Hd ==> atom_name(a) =~= seq!['@', 'h', 'd'],
        a == Atom::DoHd ==> atom_name(a) =~= seq!['@', 'd', 'o', 'H', 'd'],
        a == Atom::Tl ==> atom_name(a) =~= seq!['@', 't', 'l'],
        a == Atom::DoTl ==> atom_name(a) =~= seq!['@', 'd', 'o', 'T', 'l'],
        a == Atom::Cons ==> atom_name(a) =~= seq!['@', 'c', 'o', 'n', 's'],
        a == Atom::DoCons ==> atom_name(a) =~= seq!['@', 'd', 'o', 'C', 'o', 'n', 's'],
{
    reveal_strlit("@asgn");
    reveal_strlit("@doAsgn");
    reveal_strlit("@while");
    reveal_strlit("@doWhile");
    reveal_strlit("@if");
    reveal_strlit("@doIf");
    reveal_strlit("@var");
    reveal_strlit("@quote");
    reveal_strlit("@hd");
    reveal_strlit("@doHd");
    reveal_strlit("@tl");
    reveal_strlit("@doTl");
    reveal_strlit("@cons");
    reveal_strlit("@doCons");
}

impl Atom {
    /// The atom that the number `n` stands for, if any.
    pub fn from_code(n: u8) -> (r: Option<Atom>)
        ensures
            r == atom_with_code(n as nat),
    {
        match n {
            2 => Some(Atom::Asgn),
            3 => Some(Atom::DoAsgn),
            5 => Some(Atom::While),
            7 => Some(Atom::DoWhile),
            11 => Some(Atom::If),
            13 => Some(Atom::DoIf),
            17 => Some(Atom::Var),
            19 => Some(Atom::Quote),
            23 => Some(Atom::Hd),
            29 => Some(Atom::DoHd),
            31 => Some(Atom::Tl),
            37 => Some(Atom::DoTl),
            41 => Some(Atom::Cons),
            43 => Some(Atom::DoCons),
            _ => None,
        }
    }

    /// How the atom is written.
    pub fn to_string(&self) -> (s: String)
        ensures
            s@ == atom_name(*self),
    {
        match self {
            Atom::Asgn => String::from_str("@asgn"),
            Atom::DoAsgn => String::from_str("@doAsgn"),
            Atom::While => String::from_str("@while"),
            Atom::DoWhile => String::from_str("@doWhile"),
            Atom::If => String::from_str("@if"),
            Atom::DoIf => String::from_str("@doIf"),
            Atom::Var => String::from_str("@var"),
            Atom::Quote => String::from_str("@quote"),
            Atom::Hd => String::from_str("@hd"),
            Atom::DoHd => String::from_str("@doHd"),
            Atom::Tl => String::from_str("@tl"),
            Atom::DoTl => String::from_str("@doTl"),
            Atom::Cons => String::from_str("@cons"),
            Atom::DoCons => String::from_str("@doCons"),
        }
    }
}

} // verus!
