//! Writing a term into one term reference, with a fresh block for the
//! arguments of every compound.

use vstd::prelude::*;

use crate::frame::Frame;
use crate::layout::{args_used, lemma_write_plan_builds, lemma_write_plan_in_bounds, lemma_args_used_prefix, lemma_take_step, lemma_terms_size_prefix, term_size, terms_size, write_plan, write_tree, write_used};
use crate::steps::{run_steps, slots_after, steps_in_bounds, WriteStep};
use crate::term::{tree_of, Term, Tree};

verus! {

/// Whether every compound in `t` has at least one argument.
pub open spec fn has_no_empty_compound(t: Term) -> bool
    decreases t,
{
    match t {
        Term::Predicate(_, args) => args@.len() > 0 && all_have_no_empty_compound(args@),
        _ => true,
    }
}

/// Whether every compound in `ts` has at least one argument.
pub open spec fn all_have_no_empty_compound(ts: Seq<Term>) -> bool
    decreases ts,
{
    if ts.len() == 0 {
        true
    } else {
        all_have_no_empty_compound(ts.drop_last()) && has_no_empty_compound(ts.last())
    }
}

pub proof fn lemma_no_empty_prefix(ts: Seq<Term>, i: int)
    requires
        0 <= i < ts.len(),
        all_have_no_empty_compound(ts),
    ensures
        all_have_no_empty_compound(ts.take(i + 1)),
        has_no_empty_compound(ts[i]),
    decreases ts.len(),
{
    if i + 1 < ts.len() {
        assert(ts.drop_last().take(i + 1) =~= ts.take(i + 1));
        assert(ts.drop_last()[i] == ts[i]);
        lemma_no_empty_prefix(ts.drop_last(), i);
    } else {
        assert(ts.take(i + 1) =~= ts);
    }
}

impl Term {
    /// The number of term references that `write` allocates for this term,
    /// when every compound in it has an argument and a `usize` counts them.
    pub fn checked_write_used(&self) -> (r: Option<usize>)
        ensures
            r == (if has_no_empty_compound(*self) && write_used(*self) <= usize::MAX {
                Some(write_used(*self) as usize)
            } else {
                None::<usize>
            }),
        decreases term_size(*self),
    {
        match self {
            Term::Predicate(_, terms) => {
                let n = terms.len();
                if n == 0 {
                    return None;
                }
                let mut used: usize = n;
                let mut i: usize = 0;
                while i < n
                    invariant
                        n == terms@.len(),
                        n > 0,
                        0 <= i <= n,
                        term_size(*self) == terms_size(terms@) + 1,
                        write_used(*self) == n + args_used(terms@),
                        has_no_empty_compound(*self) == all_have_no_empty_compound(terms@),
                        used == n + args_used(terms@.take(i as int)),
                        all_have_no_empty_compound(terms@.take(i as int)),
                    decreases n - i,
                {
                    proof {
                        lemma_take_step(terms@, i as int);
                        lemma_terms_size_prefix(terms@, i + 1);
                        lemma_args_used_prefix(terms@, i + 1);
                        let t = terms@.take(i + 1);
                        assert(t.drop_last() =~= terms@.take(i as int));
                        assert(t.last() == terms@[i as int]);
                        if all_have_no_empty_compound(terms@) {
                            lemma_no_empty_prefix(terms@, i as int);
                        }
                    }
                    let child = match terms[i].checked_write_used() {
                        Some(child) => child,
                        None => return None,
                    };
                    used = match used.checked_add(child) {
                        Some(sum) => sum,
                        None => return None,
                    };
                    i = i + 1;
                }
                assert(terms@.take(i as int) =~= terms@);
                Some(used)
            },
            _ => Some(0),
        }
    }

    /// The steps that write this term into a term reference, slot 0, of
    /// `frame`: every compound allocates a fresh block in the frame for its
    /// arguments. Every compound must have an argument, and a frame with a
    /// nested frame cannot allocate.
    pub fn write(&self, frame: &Frame) -> (steps: Vec<WriteStep>)
        requires
            1 + write_used(*self) <= usize::MAX,
            has_no_empty_compound(*self),
            self is Predicate ==> !frame.has_child(),
        ensures
            steps@ == write_plan(*self, 0, 1, true),
    {
        let mut steps: Vec<WriteStep> = Vec::new();
        write_tree(self, &mut steps, 0, 1, true);
        assert(steps@ =~= write_plan(*self, 0, 1, true));
        steps
    }
}


/// `Term::write` only touches term references that exist: every slot that a
/// step sets, and every argument block a compound is built from, lies within
/// the given reference and the blocks allocated before the step; and writing
/// allocates `write_used(t)` references.
pub proof fn lemma_term_write_in_bounds(t: Term)
    requires
        1 + write_used(t) <= usize::MAX,
    ensures
        steps_in_bounds(write_plan(t, 0, 1, true), 1),
        slots_after(write_plan(t, 0, 1, true), 1) == 1 + write_used(t),
{
    lemma_write_plan_in_bounds(t, 0, 1, true, 1);
}

/// Performing the steps of `Term::write` builds the tree of `t` in the given
/// reference, slot 0: every compound is built from a block holding the trees
/// of its arguments.
pub proof fn lemma_term_write_builds(t: Term, store: spec_fn(int) -> Tree)
    requires
        1 + write_used(t) <= usize::MAX,
    ensures
        run_steps(write_plan(t, 0, 1, true), store)(0) == tree_of(t),
        forall|j: int| !(0 <= j < 1 + write_used(t)) ==> #[trigger] run_steps(write_plan(t, 0, 1, true), store)(j) == store(j),
{
    lemma_write_plan_builds(t, 0, 1, true, store);
}

} // verus!
