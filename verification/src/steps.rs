//! The operations on term references that writing terms consists of.

use vstd::prelude::*;

use crate::term::{Leaf, Tree};

verus! {

/// One operation on term references that the embedding program performs,
/// in order, to write terms. Slots are positions in the run of term
/// references the steps are written into.
#[derive(Debug, PartialEq)]
pub enum WriteStep {
    /// Append a fresh block of `size` term references (`PL_new_term_refs`);
    /// its slots follow all slots that exist so far.
    Allocate { size: usize },
    /// Put a value or a fresh variable into the reference at `slot`
    /// (`PL_put_bool`, `PL_put_integer`, `PL_put_int64`, `PL_put_float`,
    /// `PL_put_atom_chars`, `PL_put_variable`).
    Put { slot: usize, leaf: Leaf },
    /// Build the compound `name/arity` whose arguments are the `arity`
    /// references starting at slot `args`, into the reference at slot `target`
    /// (`PL_new_functor_sz` and `PL_cons_functor_v`).
    Cons { name: String, arity: usize, args: usize, target: usize },
}

impl WriteStep {
    /// The slot that the step sets, if it sets one.
    pub open spec fn target(self) -> Option<usize> {
        match self {
            WriteStep::Allocate { .. } => None,
            WriteStep::Put { slot, .. } => Some(slot),
            WriteStep::Cons { target, .. } => Some(target),
        }
    }
}


/// The number of slots that exist after `steps`, when `existing` existed
/// before them.
pub open spec fn slots_after(steps: Seq<WriteStep>, existing: nat) -> nat
    decreases steps.len(),
{
    if steps.len() == 0 {
        existing
    } else {
        let before = slots_after(steps.drop_last(), existing);
        match steps.last() {
            WriteStep::Allocate { size } => before + size as nat,
            _ => before,
        }
    }
}

/// A step only touches slots that exist when it is performed.
pub open spec fn step_in_bounds(step: WriteStep, existing: nat) -> bool {
    match step {
        WriteStep::Allocate { .. } => true,
        WriteStep::Put { slot, .. } => slot < existing,
        WriteStep::Cons { arity, args, target, .. } => args + arity <= existing && target < existing,
    }
}

/// Every step of `steps` only touches slots that exist when it is performed,
/// `existing` slots existing before the first.
pub open spec fn steps_in_bounds(steps: Seq<WriteStep>, existing: nat) -> bool
    decreases steps.len(),
{
    if steps.len() == 0 {
        true
    } else {
        steps_in_bounds(steps.drop_last(), existing) && step_in_bounds(
            steps.last(),
            slots_after(steps.drop_last(), existing),
        )
    }
}

pub proof fn lemma_steps_concat(a: Seq<WriteStep>, b: Seq<WriteStep>, existing: nat)
    ensures
        slots_after(a + b, existing) == slots_after(b, slots_after(a, existing)),
        steps_in_bounds(a + b, existing) == (steps_in_bounds(a, existing) && steps_in_bounds(
            b,
            slots_after(a, existing),
        )),
    decreases b.len(),
{
    if b.len() == 0 {
        assert(a + b =~= a);
    } else {
        assert((a + b).drop_last() =~= a + b.drop_last());
        assert((a + b).last() == b.last());
        lemma_steps_concat(a, b.drop_last(), existing);
    }
}

/// What the term references hold after `step`, when they held `store`
/// before it: a put sets its slot to the value, a compound built into a slot
/// holds the trees of its argument block, and an allocation sets nothing.
pub open spec fn apply_step(step: WriteStep, store: spec_fn(int) -> Tree) -> spec_fn(int) -> Tree {
    match step {
        WriteStep::Allocate { .. } => store,
        WriteStep::Put { slot, leaf } => |j: int|
            if j == slot as int {
                Tree::Leaf(leaf)
            } else {
                store(j)
            },
        WriteStep::Cons { name, arity, args, target } => |j: int|
            if j == target as int {
                Tree::Node(name, Seq::new(arity as nat, |i: int| store(args + i)))
            } else {
                store(j)
            },
    }
}

/// What the term references hold after `steps`, performed in order, when
/// they held `store` before them.
pub open spec fn run_steps(steps: Seq<WriteStep>, store: spec_fn(int) -> Tree) -> spec_fn(int) -> Tree
    decreases steps.len(),
{
    if steps.len() == 0 {
        store
    } else {
        apply_step(steps.last(), run_steps(steps.drop_last(), store))
    }
}

/// Performing `a` and then `b` is performing `a + b`.
pub proof fn lemma_run_concat(a: Seq<WriteStep>, b: Seq<WriteStep>, store: spec_fn(int) -> Tree)
    ensures
        run_steps(a + b, store) == run_steps(b, run_steps(a, store)),
    decreases b.len(),
{
    if b.len() == 0 {
        assert(a + b =~= a);
    } else {
        assert((a + b).drop_last() =~= a + b.drop_last());
        assert((a + b).last() == b.last());
        lemma_run_concat(a, b.drop_last(), store);
    }
}

} // verus!
