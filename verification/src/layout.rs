//! The layout in which a frame writes terms one after the other into a
//! single run of term references.

use vstd::prelude::*;

use crate::steps::{lemma_steps_concat, slots_after, step_in_bounds, steps_in_bounds, WriteStep};
use crate::steps::{apply_step, lemma_run_concat, run_steps};
use crate::term::{lemma_trees_of, tree_of, trees_of, Leaf, Term, Tree};

verus! {

/// The number of term references that writing `t` into a frame takes: one
/// per term without arguments, and for a compound those of its arguments and
/// one more, the reference that receives the compound itself.
pub open spec fn term_size(t: Term) -> nat
    decreases t,
{
    match t {
        Term::Predicate(_, args) => terms_size(args@) + 1,
        _ => 1,
    }
}

/// The number of term references that writing all of `ts` takes.
pub open spec fn terms_size(ts: Seq<Term>) -> nat
    decreases ts,
{
    if ts.len() == 0 {
        0
    } else {
        terms_size(ts.drop_last()) + term_size(ts.last())
    }
}

/// The steps that write `t` from slot `offset` on into a run of term
/// references that already exist: a term without arguments is put into slot
/// `offset`; a compound with `n` arguments takes slots `offset..offset + n`
/// for the roots of its arguments, the slots after them for the arguments of
/// its nested compounds, and the last slot of its span for itself.
pub open spec fn term_plan(t: Term, offset: int) -> Seq<WriteStep> {
    write_plan(t, offset + write_used(t), offset, false)
}

/// The number of term references that the arguments of the compounds in `t`
/// take: a block for the arguments of every compound.
pub open spec fn write_used(t: Term) -> nat
    decreases t,
{
    match t {
        Term::Predicate(_, args) => args@.len() + args_used(args@),
        _ => 0,
    }
}

/// The number of term references that the arguments of the compounds in all
/// of `ts` take.
pub open spec fn args_used(ts: Seq<Term>) -> nat
    decreases ts,
{
    if ts.len() == 0 {
        0
    } else {
        args_used(ts.drop_last()) + write_used(ts.last())
    }
}

/// The steps that write `t` into slot `pos`, with the argument blocks of its
/// compounds from slot `free` on: a term without arguments is put into
/// `pos`; a compound with `n` arguments puts them, one per slot, into the
/// block `free..free + n` (first allocating that block when `allocate`
/// holds), with the blocks of their own compounds after it, and builds
/// itself into `pos` from that block.
pub open spec fn write_plan(t: Term, pos: int, free: int, allocate: bool) -> Seq<WriteStep>
    decreases t,
{
    match t {
        Term::Predicate(name, args) => {
            let block: Seq<WriteStep> = if allocate {
                seq![WriteStep::Allocate { size: args@.len() as usize }]
            } else {
                seq![]
            };
            block + args_plan(args@, free, free + args@.len(), allocate) + seq![
                WriteStep::Cons {
                    name: name,
                    arity: args@.len() as usize,
                    args: free as usize,
                    target: pos as usize,
                },
            ]
        },
        _ => seq![WriteStep::Put { slot: pos as usize, leaf: t.leaf() }],
    }
}

/// The steps that write `ts[i]` into slot `first + i`, one after the other,
/// with the argument blocks of their compounds from slot `free` on.
pub open spec fn args_plan(ts: Seq<Term>, first: int, free: int, allocate: bool) -> Seq<WriteStep>
    decreases ts,
{
    if ts.len() == 0 {
        seq![]
    } else {
        args_plan(ts.drop_last(), first, free, allocate) + write_plan(
            ts.last(),
            first + ts.len() - 1,
            free + args_used(ts.drop_last()),
            allocate,
        )
    }
}

/// The steps that write all of `ts`, one after the other, from slot `offset` on.
pub open spec fn terms_plan(ts: Seq<Term>, offset: int) -> Seq<WriteStep>
    decreases ts,
{
    if ts.len() == 0 {
        seq![]
    } else {
        terms_plan(ts.drop_last(), offset) + term_plan(ts.last(), offset + terms_size(ts.drop_last()))
    }
}

pub proof fn lemma_terms_size_prefix(ts: Seq<Term>, i: int)
    requires
        0 <= i <= ts.len(),
    ensures
        terms_size(ts.take(i)) <= terms_size(ts),
    decreases ts.len(),
{
    if i < ts.len() {
        assert(ts.drop_last().take(i) =~= ts.take(i));
        lemma_terms_size_prefix(ts.drop_last(), i);
    } else {
        assert(ts.take(i) =~= ts);
    }
}

pub proof fn lemma_take_step(ts: Seq<Term>, i: int)
    requires
        0 <= i < ts.len(),
    ensures
        ts.take(i + 1).drop_last() == ts.take(i),
        ts.take(i + 1).last() == ts[i],
        terms_size(ts.take(i + 1)) == terms_size(ts.take(i)) + term_size(ts[i]),
{
    assert(ts.take(i + 1).drop_last() =~= ts.take(i));
}

/// The number of term references that writing `term` takes.
fn count_allocations(term: &Term) -> (n: usize)
    requires
        term_size(*term) <= usize::MAX,
    ensures
        n == term_size(*term),
    decreases term_size(*term),
{
    match term {
        Term::Predicate(_, terms) => {
            let mut count: usize = 0;
            let mut i: usize = 0;
            while i < terms.len()
                invariant
                    0 <= i <= terms@.len(),
                    term_size(*term) == terms_size(terms@) + 1,
                    terms_size(terms@) + 1 <= usize::MAX,
                    count == terms_size(terms@.take(i as int)),
                decreases terms@.len() - i,
            {
                proof {
                    lemma_take_step(terms@, i as int);
                    lemma_terms_size_prefix(terms@, i + 1);
                }
                count = count + count_allocations(&terms[i]);
                i = i + 1;
            }
            assert(terms@.take(i as int) =~= terms@);
            count + 1
        },
        _ => 1,
    }
}

pub proof fn lemma_args_used_prefix(ts: Seq<Term>, i: int)
    requires
        0 <= i <= ts.len(),
    ensures
        args_used(ts.take(i)) <= args_used(ts),
    decreases ts.len(),
{
    if i < ts.len() {
        assert(ts.drop_last().take(i) =~= ts.take(i));
        lemma_args_used_prefix(ts.drop_last(), i);
    } else {
        assert(ts.take(i) =~= ts);
    }
}

/// A term takes one reference for itself and `write_used` for the arguments
/// of its compounds.
pub proof fn lemma_term_size_used(t: Term)
    ensures
        term_size(t) == write_used(t) + 1,
    decreases t,
{
    match t {
        Term::Predicate(_, args) => {
            lemma_terms_size_used(args@);
        },
        _ => {},
    }
}

/// Terms take one reference each for themselves and `args_used` for the
/// arguments of their compounds.
pub proof fn lemma_terms_size_used(ts: Seq<Term>)
    ensures
        terms_size(ts) == ts.len() + args_used(ts),
    decreases ts,
{
    if ts.len() > 0 {
        lemma_terms_size_used(ts.drop_last());
        lemma_term_size_used(ts.last());
    }
}

/// Adds to `steps` the steps that write `term` into slot `pos`, with the
/// argument blocks of its compounds from slot `free` on, and returns the slot
/// that follows those blocks.
pub(crate) fn write_tree(term: &Term, steps: &mut Vec<WriteStep>, pos: usize, free: usize, allocate: bool) -> (next: usize)
    requires
        free + write_used(*term) <= usize::MAX,
    ensures
        next == free + write_used(*term),
        final(steps)@ == old(steps)@ + write_plan(*term, pos as int, free as int, allocate),
    decreases write_used(*term),
{
    match term {
        Term::Bool(value) => {
            steps.push(WriteStep::Put { slot: pos, leaf: Leaf::Bool(*value) });
            free
        },
        Term::I32(value) => {
            steps.push(WriteStep::Put { slot: pos, leaf: Leaf::I32(*value) });
            free
        },
        Term::I64(value) => {
            steps.push(WriteStep::Put { slot: pos, leaf: Leaf::I64(*value) });
            free
        },
        Term::F64(value) => {
            steps.push(WriteStep::Put { slot: pos, leaf: Leaf::F64(*value) });
            free
        },
        Term::String(value) => {
            steps.push(WriteStep::Put { slot: pos, leaf: Leaf::String(value.clone()) });
            free
        },
        Term::Variable => {
            steps.push(WriteStep::Put { slot: pos, leaf: Leaf::Variable });
            free
        },
        Term::Predicate(name, terms) => {
            let ghost start = steps@;
            let n = terms.len();
            if allocate {
                steps.push(WriteStep::Allocate { size: n });
            }
            let ghost block: Seq<WriteStep> = if allocate {
                seq![WriteStep::Allocate { size: n }]
            } else {
                seq![]
            };
            assert(steps@ =~= start + block);
            let first = free;
            let mut next = free + n;
            let mut i: usize = 0;
            while i < n
                invariant
                    n == terms@.len(),
                    0 <= i <= n,
                    write_used(*term) == n + args_used(terms@),
                    free + n + args_used(terms@) <= usize::MAX,
                    first == free,
                    next == free + n + args_used(terms@.take(i as int)),
                    steps@ == start + block + args_plan(terms@.take(i as int), free as int, free + n, allocate),
                decreases n - i,
            {
                proof {
                    let t = terms@.take(i + 1);
                    assert(t.drop_last() =~= terms@.take(i as int));
                    assert(t.last() == terms@[i as int]);
                    lemma_args_used_prefix(terms@, i + 1);
                }
                next = write_tree(&terms[i], steps, first + i, next, allocate);
                proof {
                    let t = terms@.take(i + 1);
                    assert(args_plan(t, free as int, free + n, allocate) == args_plan(t.drop_last(), free as int, free + n, allocate)
                        + write_plan(t.last(), free + t.len() - 1, free + n + args_used(t.drop_last()), allocate));
                }
                i = i + 1;
            }
            assert(terms@.take(i as int) =~= terms@);
            steps.push(WriteStep::Cons { name: name.clone(), arity: n, args: first, target: pos });
            assert(steps@ =~= start + write_plan(*term, pos as int, free as int, allocate));
            next
        },
    }
}

/// Adds to `steps` the steps that write `term` from slot `offset` on, and
/// returns the slot that follows them.
pub(crate) fn write_term(steps: &mut Vec<WriteStep>, offset: usize, term: &Term) -> (next: usize)
    requires
        offset + term_size(*term) <= usize::MAX,
    ensures
        next == offset + term_size(*term),
        final(steps)@ == old(steps)@ + term_plan(*term, offset as int),
{
    proof {
        lemma_term_size_used(*term);
    }
    let count = count_allocations(term);
    let pos = offset + (count - 1);
    write_tree(term, steps, pos, offset, false);
    pos + 1
}

/// The number of term references that writing all of `terms` takes.
pub(crate) fn count_all(terms: &Vec<Term>) -> (n: usize)
    requires
        terms_size(terms@) <= usize::MAX,
    ensures
        n == terms_size(terms@),
{
    let mut count: usize = 0;
    let mut i: usize = 0;
    while i < terms.len()
        invariant
            0 <= i <= terms@.len(),
            terms_size(terms@) <= usize::MAX,
            count == terms_size(terms@.take(i as int)),
        decreases terms@.len() - i,
    {
        proof {
            lemma_take_step(terms@, i as int);
            lemma_terms_size_prefix(terms@, i + 1);
        }
        count = count + count_allocations(&terms[i]);
        i = i + 1;
    }
    assert(terms@.take(i as int) =~= terms@);
    count
}

/// The number of term references that writing `term` takes, when a `usize`
/// can count it.
pub fn checked_term_size(term: &Term) -> (r: Option<usize>)
    ensures
        r == (if term_size(*term) <= usize::MAX { Some(term_size(*term) as usize) } else { None::<usize> }),
    decreases term_size(*term), 1nat,
{
    match term {
        Term::Predicate(_, terms) => {
            match checked_terms_size(terms) {
                Some(count) => count.checked_add(1),
                None => None,
            }
        },
        _ => Some(1),
    }
}

/// The number of term references that writing all of `terms` takes, when a
/// `usize` can count it.
pub fn checked_terms_size(terms: &Vec<Term>) -> (r: Option<usize>)
    ensures
        r == (if terms_size(terms@) <= usize::MAX { Some(terms_size(terms@) as usize) } else { None::<usize> }),
    decreases terms_size(terms@), 2nat,
{
    let mut count: usize = 0;
    let mut i: usize = 0;
    while i < terms.len()
        invariant
            0 <= i <= terms@.len(),
            count == terms_size(terms@.take(i as int)),
        decreases terms@.len() - i,
    {
        proof {
            lemma_take_step(terms@, i as int);
            lemma_terms_size_prefix(terms@, i + 1);
        }
        let size = match checked_term_size(&terms[i]) {
            Some(size) => size,
            None => return None,
        };
        count = match count.checked_add(size) {
            Some(sum) => sum,
            None => return None,
        };
        i = i + 1;
    }
    assert(terms@.take(i as int) =~= terms@);
    Some(count)
}

/// Writing a term only touches term references that exist: every slot that
/// a step sets, and every argument block a compound is built from, lies
/// within the references that exist when the step is performed. With
/// `allocate`, the argument blocks are appended from `free` on as the steps go
/// (`existing` is then `free`), and `write_used(t)` references are appended;
/// without, they must exist already and nothing is appended.
pub proof fn lemma_write_plan_in_bounds(t: Term, pos: nat, free: nat, allocate: bool, existing: nat)
    requires
        pos < existing,
        allocate ==> existing == free,
        !allocate ==> free + write_used(t) <= existing,
        free + write_used(t) <= usize::MAX,
    ensures
        steps_in_bounds(write_plan(t, pos as int, free as int, allocate), existing),
        slots_after(write_plan(t, pos as int, free as int, allocate), existing) == existing + (if allocate {
            write_used(t)
        } else {
            0
        }),
    decreases t,
{
    match t {
        Term::Predicate(name, args) => {
            let n = args@.len();
            let block: Seq<WriteStep> = if allocate {
                seq![WriteStep::Allocate { size: n as usize }]
            } else {
                seq![]
            };
            let body = args_plan(args@, free as int, (free + n) as int, allocate);
            let cons = seq![WriteStep::Cons { name: name, arity: n as usize, args: free as usize, target: pos as usize }];
            assert(block.len() > 0 ==> block.drop_last() =~= Seq::<WriteStep>::empty());
            assert(slots_after(Seq::<WriteStep>::empty(), existing) == existing);
            assert(steps_in_bounds(Seq::<WriteStep>::empty(), existing));
            let existing1 = existing + (if allocate { n } else { 0 });
            assert(slots_after(block, existing) == existing1);
            assert(steps_in_bounds(block, existing));
            lemma_args_plan_in_bounds(args@, free, (free + n) as nat, allocate, existing1);
            lemma_steps_concat(block, body, existing);
            lemma_steps_concat(block + body, cons, existing);
            let mid = slots_after(block + body, existing);
            assert(cons.drop_last() =~= Seq::<WriteStep>::empty());
            assert(slots_after(cons.drop_last(), mid) == mid);
            assert(steps_in_bounds(cons.drop_last(), mid));
            assert(step_in_bounds(cons.last(), mid));
            assert(write_plan(t, pos as int, free as int, allocate) == block + body + cons);
        },
        _ => {
            let p = write_plan(t, pos as int, free as int, allocate);
            assert(p.drop_last() =~= Seq::<WriteStep>::empty());
            assert(slots_after(p.drop_last(), existing) == existing);
            assert(steps_in_bounds(p.drop_last(), existing));
        },
    }
}

/// Writing arguments into the block `first..first + ts.len()` only touches
/// term references that exist, as for `lemma_write_plan_in_bounds`.
pub proof fn lemma_args_plan_in_bounds(ts: Seq<Term>, first: nat, free: nat, allocate: bool, existing: nat)
    requires
        first + ts.len() <= free,
        first + ts.len() <= existing,
        allocate ==> existing == free,
        !allocate ==> free + args_used(ts) <= existing,
        free + args_used(ts) <= usize::MAX,
    ensures
        steps_in_bounds(args_plan(ts, first as int, free as int, allocate), existing),
        slots_after(args_plan(ts, first as int, free as int, allocate), existing) == existing + (if allocate {
            args_used(ts)
        } else {
            0
        }),
    decreases ts,
{
    if ts.len() > 0 {
        let init = ts.drop_last();
        assert(init =~= ts.take(ts.len() - 1));
        lemma_args_used_prefix(ts, ts.len() - 1);
        lemma_args_plan_in_bounds(init, first, free, allocate, existing);
        let existing1 = existing + (if allocate { args_used(init) } else { 0 });
        lemma_write_plan_in_bounds(
            ts.last(),
            (first + ts.len() - 1) as nat,
            free + args_used(init),
            allocate,
            existing1,
        );
        lemma_steps_concat(
            args_plan(init, first as int, free as int, allocate),
            write_plan(ts.last(), first + ts.len() - 1, (free + args_used(init)) as int, allocate),
            existing,
        );
    }
}

/// The steps that write a term into a run of existing references only touch
/// the references of its span, and allocate none.
pub proof fn lemma_term_plan_in_bounds(t: Term, offset: nat, existing: nat)
    requires
        offset + term_size(t) <= existing <= usize::MAX,
    ensures
        steps_in_bounds(term_plan(t, offset as int), existing),
        slots_after(term_plan(t, offset as int), existing) == existing,
{
    lemma_term_size_used(t);
    lemma_write_plan_in_bounds(t, offset + write_used(t), offset, false, existing);
}

/// The steps that write terms one after the other into a run of existing
/// references only touch the references of their span, and allocate none.
pub proof fn lemma_terms_plan_in_bounds(ts: Seq<Term>, offset: nat, existing: nat)
    requires
        offset + terms_size(ts) <= existing <= usize::MAX,
    ensures
        steps_in_bounds(terms_plan(ts, offset as int), existing),
        slots_after(terms_plan(ts, offset as int), existing) == existing,
    decreases ts,
{
    if ts.len() > 0 {
        let init = ts.drop_last();
        lemma_terms_plan_in_bounds(init, offset, existing);
        lemma_term_plan_in_bounds(ts.last(), offset + terms_size(init), existing);
        lemma_steps_concat(terms_plan(init, offset as int), term_plan(ts.last(), (offset + terms_size(init)) as int), existing);
    }
}

/// Performing the steps that write `t` into slot `pos` builds the tree of
/// `t` there; a compound's argument block holds the trees of its arguments;
/// and no slot outside `pos` and the argument blocks from `free` on changes.
pub proof fn lemma_write_plan_builds(t: Term, pos: int, free: int, allocate: bool, store: spec_fn(int) -> Tree)
    requires
        0 <= pos <= usize::MAX,
        0 <= free,
        free + write_used(t) <= usize::MAX,
        pos < free || free + write_used(t) <= pos,
    ensures
        run_steps(write_plan(t, pos, free, allocate), store)(pos) == tree_of(t),
        t matches Term::Predicate(_, args) ==> forall|i: int| 0 <= i < args@.len()
            ==> #[trigger] run_steps(write_plan(t, pos, free, allocate), store)(free + i) == tree_of(args@[i]),
        forall|j: int| j != pos && !(free <= j < free + write_used(t))
            ==> #[trigger] run_steps(write_plan(t, pos, free, allocate), store)(j) == store(j),
    decreases t,
{
    let plan = write_plan(t, pos, free, allocate);
    match t {
        Term::Predicate(name, args) => {
            let n = args@.len();
            let block: Seq<WriteStep> = if allocate {
                seq![WriteStep::Allocate { size: n as usize }]
            } else {
                seq![]
            };
            let body = args_plan(args@, free, free + n, allocate);
            let cons = seq![WriteStep::Cons { name: name, arity: n as usize, args: free as usize, target: pos as usize }];
            assert(plan == block + body + cons);
            assert(run_steps(block, store) == store) by {
                assert(run_steps(Seq::<WriteStep>::empty(), store) == store);
                if allocate {
                    assert(block.drop_last() =~= Seq::<WriteStep>::empty());
                    assert(run_steps(block, store) == apply_step(block.last(), run_steps(block.drop_last(), store)));
                } else {
                    assert(block =~= Seq::<WriteStep>::empty());
                }
            }
            lemma_run_concat(block, body, store);
            lemma_run_concat(block + body, cons, store);
            let s1 = run_steps(block + body, store);
            lemma_args_plan_builds(args@, free, free + n, allocate, store);
            assert(cons.drop_last() =~= Seq::<WriteStep>::empty());
            assert(run_steps(Seq::<WriteStep>::empty(), s1) == s1);
            assert(run_steps(cons, s1) == apply_step(cons.last(), run_steps(cons.drop_last(), s1)));
            let s2 = run_steps(plan, store);
            assert(s2 == apply_step(cons.last(), s1));
            lemma_trees_of(args@);
            let children = Seq::new(n, |i: int| s1(free + i));
            assert(children =~= trees_of(args@)) by {
                assert forall|i: int| 0 <= i < n implies #[trigger] children[i] == trees_of(args@)[i] by {
                    assert(s1(free + i) == tree_of(args@[i]));
                }
            }
            assert forall|i: int| 0 <= i < args@.len() implies #[trigger] s2(free + i) == tree_of(args@[i]) by {
                assert(s1(free + i) == tree_of(args@[i]));
            }
            assert forall|j: int| j != pos && !(free <= j < free + write_used(t)) implies #[trigger] s2(j) == store(j) by {
                assert(s1(j) == store(j));
            }
        },
        _ => {
            assert(plan.drop_last() =~= Seq::<WriteStep>::empty());
            assert(run_steps(plan.drop_last(), store) == store);
            let s2 = run_steps(plan, store);
            assert(s2 == apply_step(plan.last(), store));
            assert forall|j: int| j != pos && !(free <= j < free + write_used(t)) implies #[trigger] s2(j) == store(j) by {}
        },
    }
}

/// Performing the steps that write `ts` into the block `first..first +
/// ts.len()` puts the tree of `ts[i]` into slot `first + i`, and changes no
/// slot outside the block and the argument blocks from `free` on.
pub proof fn lemma_args_plan_builds(ts: Seq<Term>, first: int, free: int, allocate: bool, store: spec_fn(int) -> Tree)
    requires
        0 <= first,
        first + ts.len() <= free,
        free + args_used(ts) <= usize::MAX,
    ensures
        forall|i: int| 0 <= i < ts.len()
            ==> #[trigger] run_steps(args_plan(ts, first, free, allocate), store)(first + i) == tree_of(ts[i]),
        forall|j: int| !(first <= j < first + ts.len()) && !(free <= j < free + args_used(ts))
            ==> #[trigger] run_steps(args_plan(ts, first, free, allocate), store)(j) == store(j),
    decreases ts,
{
    if ts.len() > 0 {
        let init = ts.drop_last();
        let last = ts.last();
        assert(init =~= ts.take(ts.len() - 1));
        lemma_args_used_prefix(ts, ts.len() - 1);
        lemma_args_plan_builds(init, first, free, allocate, store);
        let s1 = run_steps(args_plan(init, first, free, allocate), store);
        let pos = first + ts.len() - 1;
        let free2 = free + args_used(init);
        lemma_write_plan_builds(last, pos, free2, allocate, s1);
        lemma_run_concat(args_plan(init, first, free, allocate), write_plan(last, pos, free2, allocate), store);
        let s2 = run_steps(args_plan(ts, first, free, allocate), store);
        assert(s2 == run_steps(write_plan(last, pos, free2, allocate), s1));
        assert forall|i: int| 0 <= i < ts.len() implies #[trigger] s2(first + i) == tree_of(ts[i]) by {
            if i < init.len() {
                assert(init[i] == ts[i]);
                assert(s1(first + i) == tree_of(init[i]));
            }
        }
        assert forall|j: int| !(first <= j < first + ts.len()) && !(free <= j < free + args_used(ts))
            implies #[trigger] s2(j) == store(j) by {
            assert(s1(j) == store(j));
        }
    }
}

/// Performing the steps that write `t` from slot `offset` on builds the tree
/// of `t` in the last slot of its span, `offset + write_used(t)`; when `t` is
/// a compound, the slots from `offset` on hold the trees of its arguments, so
/// they are its argument vector; and no slot outside the span changes.
pub proof fn lemma_term_plan_builds(t: Term, offset: int, store: spec_fn(int) -> Tree)
    requires
        0 <= offset,
        offset + term_size(t) <= usize::MAX,
    ensures
        run_steps(term_plan(t, offset), store)(offset + write_used(t)) == tree_of(t),
        t matches Term::Predicate(_, args) ==> forall|i: int| 0 <= i < args@.len()
            ==> #[trigger] run_steps(term_plan(t, offset), store)(offset + i) == tree_of(args@[i]),
        forall|j: int| !(offset <= j < offset + term_size(t))
            ==> #[trigger] run_steps(term_plan(t, offset), store)(j) == store(j),
{
    lemma_term_size_used(t);
    lemma_write_plan_builds(t, offset + write_used(t), offset, false, store);
}

/// The slot in which the tree of `ts[i]` ends up when `ts` are written one
/// after the other from slot `offset` on: the last slot of its span.
pub open spec fn root_slot(ts: Seq<Term>, offset: int, i: int) -> int {
    offset + terms_size(ts.take(i)) + write_used(ts[i])
}

/// Performing the steps that write `ts` one after the other from slot
/// `offset` on builds the tree of each `ts[i]` in its root slot, and changes
/// no slot outside their span.
pub proof fn lemma_terms_plan_builds(ts: Seq<Term>, offset: int, store: spec_fn(int) -> Tree)
    requires
        0 <= offset,
        offset + terms_size(ts) <= usize::MAX,
    ensures
        forall|i: int| 0 <= i < ts.len() ==> #[trigger] run_steps(terms_plan(ts, offset), store)(root_slot(ts, offset, i))
            == tree_of(ts[i]),
        forall|j: int| !(offset <= j < offset + terms_size(ts))
            ==> #[trigger] run_steps(terms_plan(ts, offset), store)(j) == store(j),
    decreases ts.len(),
{
    if ts.len() > 0 {
        let init = ts.drop_last();
        let last = ts.last();
        let start = offset + terms_size(init);
        assert(init =~= ts.take(ts.len() - 1));
        lemma_terms_size_prefix(ts, ts.len() - 1);
        lemma_terms_plan_builds(init, offset, store);
        let s1 = run_steps(terms_plan(init, offset), store);
        lemma_term_plan_builds(last, start, s1);
        lemma_run_concat(terms_plan(init, offset), term_plan(last, start), store);
        let s2 = run_steps(terms_plan(ts, offset), store);
        assert(s2 == run_steps(term_plan(last, start), s1));
        assert forall|i: int| 0 <= i < ts.len() implies #[trigger] s2(root_slot(ts, offset, i)) == tree_of(ts[i]) by {
            if i < init.len() {
                assert(init[i] == ts[i]);
                assert(ts.take(i) =~= init.take(i));
                lemma_take_step(init, i);
                lemma_terms_size_prefix(init, i + 1);
                lemma_term_size_used(ts[i]);
                assert(root_slot(ts, offset, i) == root_slot(init, offset, i));
                assert(s1(root_slot(init, offset, i)) == tree_of(init[i]));
            } else {
                assert(ts.take(i) =~= init);
                assert(ts[i] == last);
            }
        }
        assert forall|j: int| !(offset <= j < offset + terms_size(ts)) implies #[trigger] s2(j) == store(j) by {
            assert(s1(j) == store(j));
        }
    }
}

/// A term without arguments takes exactly one term reference and is written
/// by a single put, into its slot, of a leaf of the same kind holding the same
/// value.
pub proof fn lemma_leaf_written_alone(t: Term, pos: int, free: int, allocate: bool)
    requires
        !(t is Predicate),
    ensures
        term_size(t) == 1,
        write_used(t) == 0,
        term_plan(t, pos) == write_plan(t, pos, pos, false),
        t matches Term::Bool(b) ==> write_plan(t, pos, free, allocate) == seq![WriteStep::Put { slot: pos as usize, leaf: Leaf::Bool(b) }],
        t matches Term::I32(v) ==> write_plan(t, pos, free, allocate) == seq![WriteStep::Put { slot: pos as usize, leaf: Leaf::I32(v) }],
        t matches Term::I64(v) ==> write_plan(t, pos, free, allocate) == seq![WriteStep::Put { slot: pos as usize, leaf: Leaf::I64(v) }],
        t matches Term::F64(v) ==> write_plan(t, pos, free, allocate) == seq![WriteStep::Put { slot: pos as usize, leaf: Leaf::F64(v) }],
        t matches Term::String(v) ==> write_plan(t, pos, free, allocate) == seq![WriteStep::Put { slot: pos as usize, leaf: Leaf::String(v) }],
        t is Variable ==> write_plan(t, pos, free, allocate) == seq![WriteStep::Put { slot: pos as usize, leaf: Leaf::Variable }],
{
}

/// Terms without arguments, written one after the other from slot `offset`
/// on, take one reference each: the `i`-th is put into slot `offset + i`, as
/// a leaf of its own kind and value.
pub proof fn lemma_flat_terms_written(ts: Seq<Term>, offset: int)
    requires
        forall|i: int| 0 <= i < ts.len() ==> !(#[trigger] ts[i] is Predicate),
    ensures
        terms_size(ts) == ts.len(),
        terms_plan(ts, offset) == Seq::new(
            ts.len(),
            |i: int| WriteStep::Put { slot: (offset + i) as usize, leaf: ts[i].leaf() },
        ),
    decreases ts.len(),
{
    if ts.len() > 0 {
        let init = ts.drop_last();
        let last = ts.last();
        assert forall|i: int| 0 <= i < init.len() implies !(#[trigger] init[i] is Predicate) by {
            assert(init[i] == ts[i]);
        }
        lemma_flat_terms_written(init, offset);
        assert(!(last is Predicate)) by {
            assert(last == ts[ts.len() - 1]);
        }
        lemma_leaf_written_alone(last, offset + init.len(), offset + init.len(), false);
        assert(term_plan(last, offset + init.len()) == seq![WriteStep::Put { slot: (offset + init.len()) as usize, leaf: last.leaf() }]);
        let expected = Seq::new(
            ts.len(),
            |i: int| WriteStep::Put { slot: (offset + i) as usize, leaf: ts[i].leaf() },
        );
        let p = terms_plan(ts, offset);
        assert forall|i: int| 0 <= i < ts.len() implies #[trigger] p[i] == expected[i] by {
            if i < init.len() {
                assert(init[i] == ts[i]);
            }
        }
        assert(p =~= expected);
    } else {
        assert(terms_plan(ts, offset) =~= Seq::<WriteStep>::empty());
    }
}

} // verus!
