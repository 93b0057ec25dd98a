//! Terms as the library builds them.

use vstd::prelude::*;

use vstd::std_specs::convert::{FromSpec, FromSpecImpl};

use crate::layout::{lemma_take_step, lemma_terms_size_prefix, term_size, terms_size};

verus! {

/// A Prolog term as the library builds it before writing it into term
/// references. A double is held by its IEEE-754 bit pattern.
#[derive(Debug)]
pub enum Term {
    Bool(bool),
    I32(i32),
    I64(i64),
    F64(u64),
    String(String),
    Variable,
    Predicate(String, Box<Vec<Term>>),
}

/// What a single term reference is set to when a term without arguments is
/// written: the value itself, or a fresh variable.
#[derive(Clone, Debug, PartialEq)]
pub enum Leaf {
    Bool(bool),
    I32(i32),
    I64(i64),
    F64(u64),
    String(String),
    Variable,
}

/// A term as the C interface holds it once it is written into a term
/// reference: a value or a fresh variable, or a compound of a name and the
/// trees of its arguments.
pub enum Tree {
    Leaf(Leaf),
    Node(String, Seq<Tree>),
}

/// The tree that writing `t` builds.
pub open spec fn tree_of(t: Term) -> Tree
    decreases t,
{
    match t {
        Term::Predicate(name, args) => Tree::Node(name, trees_of(args@)),
        _ => Tree::Leaf(t.leaf()),
    }
}

/// The trees that writing each of `ts` builds.
pub open spec fn trees_of(ts: Seq<Term>) -> Seq<Tree>
    decreases ts,
{
    if ts.len() == 0 {
        seq![]
    } else {
        trees_of(ts.drop_last()).push(tree_of(ts.last()))
    }
}

/// `trees_of` gives the tree of each term, in order.
pub proof fn lemma_trees_of(ts: Seq<Term>)
    ensures
        trees_of(ts).len() == ts.len(),
        forall|i: int| 0 <= i < ts.len() ==> #[trigger] trees_of(ts)[i] == tree_of(ts[i]),
    decreases ts.len(),
{
    if ts.len() > 0 {
        let init = ts.drop_last();
        lemma_trees_of(init);
        assert forall|i: int| 0 <= i < ts.len() implies #[trigger] trees_of(ts)[i] == tree_of(ts[i]) by {
            if i < init.len() {
                assert(init[i] == ts[i]);
            }
        }
    }
}

impl Term {
    /// Whether the term is a compound (`Term::Predicate`).
    pub open spec fn is_compound(self) -> bool {
        self is Predicate
    }

    /// The value that a term without arguments puts into its term reference.
    pub open spec fn leaf(self) -> Leaf {
        match self {
            Term::Bool(v) => Leaf::Bool(v),
            Term::I32(v) => Leaf::I32(v),
            Term::I64(v) => Leaf::I64(v),
            Term::F64(v) => Leaf::F64(v),
            Term::String(v) => Leaf::String(v),
            _ => Leaf::Variable,
        }
    }

    /// The compound `name(args...)`.
    pub open spec fn is_compound_of(self, name: Seq<char>, args: Seq<Term>) -> bool {
        &&& self matches Term::Predicate(n, a)
        &&& n@ == name
        &&& a@ == args
    }

    /// `assert(term)`.
    pub fn assert_term(term: Term) -> (r: Term)
        ensures
            r.is_compound_of("assert"@, seq![term]),
    {
        let name = "assert".to_string();
        proof {
            reveal_strlit("assert");
        }
        let mut args: Vec<Term> = Vec::new();
        args.push(term);
        Term::Predicate(name, Box::new(args))
    }

    /// `retract(term)`.
    pub fn retract(term: Term) -> (r: Term)
        ensures
            r.is_compound_of("retract"@, seq![term]),
    {
        let name = "retract".to_string();
        proof {
            reveal_strlit("retract");
        }
        let mut args: Vec<Term> = Vec::new();
        args.push(term);
        Term::Predicate(name, Box::new(args))
    }

    /// The clause `term1 :- term2`.
    pub fn head_body(term1: Term, term2: Term) -> (r: Term)
        ensures
            r.is_compound_of(":-"@, seq![term1, term2]),
    {
        let name = ":-".to_string();
        proof {
            reveal_strlit(":-");
        }
        Term::Predicate(name, Box::new(vec![term1, term2]))
    }
}

impl From<String> for Term {
    fn from(value: String) -> (t: Term) {
        Term::String(value)
    }
}

impl FromSpecImpl<String> for Term {
    open spec fn obeys_from_spec() -> bool {
        true
    }

    open spec fn from_spec(v: String) -> Term {
        Term::String(v)
    }
}

impl From<bool> for Term {
    fn from(value: bool) -> (t: Term) {
        Term::Bool(value)
    }
}

impl FromSpecImpl<bool> for Term {
    open spec fn obeys_from_spec() -> bool {
        true
    }

    open spec fn from_spec(v: bool) -> Term {
        Term::Bool(v)
    }
}

impl From<i32> for Term {
    fn from(value: i32) -> (t: Term) {
        Term::I32(value)
    }
}

impl FromSpecImpl<i32> for Term {
    open spec fn obeys_from_spec() -> bool {
        true
    }

    open spec fn from_spec(v: i32) -> Term {
        Term::I32(v)
    }
}

impl From<i64> for Term {
    fn from(value: i64) -> (t: Term) {
        Term::I64(value)
    }
}

impl FromSpecImpl<i64> for Term {
    open spec fn obeys_from_spec() -> bool {
        true
    }

    open spec fn from_spec(v: i64) -> Term {
        Term::I64(v)
    }
}

impl From<()> for Term {
    fn from(_value: ()) -> (t: Term) {
        Term::Variable
    }
}

impl FromSpecImpl<()> for Term {
    open spec fn obeys_from_spec() -> bool {
        true
    }

    open spec fn from_spec(_v: ()) -> Term {
        Term::Variable
    }
}

impl From<(String, Vec<Term>)> for Term {
    fn from(value: (String, Vec<Term>)) -> (t: Term) {
        Term::Predicate(value.0, Box::new(value.1))
    }
}

impl FromSpecImpl<(String, Vec<Term>)> for Term {
    open spec fn obeys_from_spec() -> bool {
        true
    }

    open spec fn from_spec(v: (String, Vec<Term>)) -> Term {
        Term::Predicate(v.0, Box::new(v.1))
    }
}

impl<'a> From<&'a str> for Term {
    /// The text as a `Term::String`. A `String` made from a `&str` is known
    /// only by its characters, so this conversion promises no more than those.
    fn from(value: &'a str) -> (t: Term)
        ensures
            t matches Term::String(s) && s@ == value@,
    {
        Term::String(value.to_string())
    }
}

impl<'a> FromSpecImpl<&'a str> for Term {
    open spec fn obeys_from_spec() -> bool {
        false
    }

    open spec fn from_spec(v: &'a str) -> Term {
        Term::Variable
    }
}

impl<'a> From<(&'a str, Vec<Term>)> for Term {
    /// The compound `name(args...)`. A `String` made from a `&str` is known
    /// only by its characters, so this conversion promises no more than those
    /// for the name.
    fn from(value: (&'a str, Vec<Term>)) -> (t: Term)
        ensures
            t.is_compound_of(value.0@, value.1@),
    {
        Term::Predicate(value.0.to_string(), Box::new(value.1))
    }
}

impl<'a> FromSpecImpl<(&'a str, Vec<Term>)> for Term {
    open spec fn obeys_from_spec() -> bool {
        false
    }

    open spec fn from_spec(v: (&'a str, Vec<Term>)) -> Term {
        Term::Variable
    }
}

/// `a` and `b` are the same tree: terms without arguments are equal, and
/// compounds have the same name and arguments that are the same trees, one by
/// one.
pub open spec fn same_tree(a: Term, b: Term) -> bool
    decreases a,
{
    match a {
        Term::Predicate(n1, a1) => match b {
            Term::Predicate(n2, a2) => n1 == n2 && same_trees(a1@, a2@),
            _ => false,
        },
        _ => a == b,
    }
}

/// `xs` and `ys` have the same length and are the same trees, one by one.
pub open spec fn same_trees(xs: Seq<Term>, ys: Seq<Term>) -> bool
    decreases xs,
{
    if xs.len() == 0 {
        ys.len() == 0
    } else {
        &&& ys.len() == xs.len()
        &&& same_trees(xs.drop_last(), ys.drop_last())
        &&& same_tree(xs.last(), ys.last())
    }
}

impl Clone for Term {
    /// A copy of the term: the same tree, argument by argument.
    fn clone(&self) -> (r: Term)
        ensures
            same_tree(r, *self),
        decreases term_size(*self),
    {
        match self {
            Term::Bool(v) => Term::Bool(*v),
            Term::I32(v) => Term::I32(*v),
            Term::I64(v) => Term::I64(*v),
            Term::F64(v) => Term::F64(*v),
            Term::String(v) => Term::String(v.clone()),
            Term::Variable => Term::Variable,
            Term::Predicate(name, args) => {
                let mut copy: Vec<Term> = Vec::new();
                let mut i: usize = 0;
                assert(copy@ =~= Seq::<Term>::empty());
                assert(args@.take(0) =~= Seq::<Term>::empty());
                while i < args.len()
                    invariant
                        0 <= i <= args@.len(),
                        copy@.len() == i,
                        term_size(*self) == terms_size(args@) + 1,
                        same_trees(copy@, args@.take(i as int)),
                    decreases args@.len() - i,
                {
                    proof {
                        lemma_take_step(args@, i as int);
                        lemma_terms_size_prefix(args@, i + 1);
                    }
                    let ghost before = copy@;
                    let c = args[i].clone();
                    copy.push(c);
                    proof {
                        let t = args@.take(i + 1);
                        assert(copy@.drop_last() =~= before);
                        assert(copy@.last() == c);
                        assert(same_trees(copy@, t));
                    }
                    i = i + 1;
                }
                assert(args@.take(i as int) =~= args@);
                let ghost copied = copy@;
                let r = Term::Predicate(name.clone(), Box::new(copy));
                assert(r->Predicate_1@ == copied);
                r
            },
        }
    }
}

/// A term without arguments is written as a leaf of the same kind holding
/// the same value (a double by the same bit pattern).
pub proof fn lemma_leaf_keeps_value(t: Term)
    ensures
        t matches Term::Bool(b) ==> t.leaf() == Leaf::Bool(b),
        t matches Term::I32(v) ==> t.leaf() == Leaf::I32(v),
        t matches Term::I64(v) ==> t.leaf() == Leaf::I64(v),
        t matches Term::F64(v) ==> t.leaf() == Leaf::F64(v),
        t matches Term::String(s) ==> t.leaf() == Leaf::String(s),
        t is Variable ==> t.leaf() == Leaf::Variable,
{
}

/// Converting a value into a `Term` keeps it, in the variant of its type; a
/// name and arguments make the compound of that name and those arguments.
pub proof fn lemma_term_from_keeps_value(s: String, b: bool, i: i32, l: i64, name: String, args: Vec<Term>)
    ensures
        <Term as FromSpec<String>>::obeys_from_spec() && <Term as FromSpec<String>>::from_spec(s) == Term::String(s),
        <Term as FromSpec<bool>>::obeys_from_spec() && <Term as FromSpec<bool>>::from_spec(b) == Term::Bool(b),
        <Term as FromSpec<i32>>::obeys_from_spec() && <Term as FromSpec<i32>>::from_spec(i) == Term::I32(i),
        <Term as FromSpec<i64>>::obeys_from_spec() && <Term as FromSpec<i64>>::from_spec(l) == Term::I64(l),
        <Term as FromSpec<()>>::obeys_from_spec() && <Term as FromSpec<()>>::from_spec(()) == Term::Variable,
        <Term as FromSpec<(String, Vec<Term>)>>::obeys_from_spec(),
        <Term as FromSpec<(String, Vec<Term>)>>::from_spec((name, args)).is_compound_of(name@, args@),
        <Term as FromSpec<(String, Vec<Term>)>>::from_spec((name, args))->Predicate_0 == name,
        forall|x: bool, y: bool| <Term as FromSpec<bool>>::from_spec(x) == <Term as FromSpec<bool>>::from_spec(y) <==> x == y,
        forall|x: i32, y: i32| <Term as FromSpec<i32>>::from_spec(x) == <Term as FromSpec<i32>>::from_spec(y) <==> x == y,
        forall|x: i64, y: i64| <Term as FromSpec<i64>>::from_spec(x) == <Term as FromSpec<i64>>::from_spec(y) <==> x == y,
{
}

} // verus!
