//! Runs of consecutive term references.

use vstd::prelude::*;

use crate::bindings::TermT;

verus! {

/// One term reference of a block.
#[derive(Debug)]
pub struct TermAllocation(TermT);

impl View for TermAllocation {
    type V = TermT;

    closed spec fn view(&self) -> TermT {
        self.0
    }
}

impl TermAllocation {
    /// The reference with the handle `term`, such as one that
    /// `PL_exception` returns.
    pub fn from_raw(term: TermT) -> (a: TermAllocation)
        ensures
            a@ == term,
    {
        TermAllocation(term)
    }

    /// The `term_t` handle of this reference.
    pub fn handle(&self) -> (h: TermT)
        ensures
            h == self@,
    {
        self.0
    }
}

/// Whether the handles are consecutive, as the term references of one block
/// returned by `PL_new_term_refs` are.
pub open spec fn is_contiguous(handles: Seq<TermT>) -> bool {
    forall|i: int| 0 <= i < handles.len() ==> #[trigger] handles[i] == handles[0] + i
}

/// The `count` consecutive handles starting at `root`.
pub open spec fn block(root: TermT, count: nat) -> Seq<TermT> {
    Seq::new(count, |i: int| (root + i) as TermT)
}

/// The positions at which `is_variable` holds, in increasing order.
pub open spec fn variable_indexes(is_variable: Seq<bool>) -> Seq<usize>
    decreases is_variable.len(),
{
    if is_variable.len() == 0 {
        seq![]
    } else {
        let prefix = variable_indexes(is_variable.drop_last());
        if is_variable.last() {
            prefix.push((is_variable.len() - 1) as usize)
        } else {
            prefix
        }
    }
}

/// The positions recorded for `is_variable` are exactly those whose flag is
/// set, each once, in increasing order.
pub proof fn lemma_variable_indexes_exact(is_variable: Seq<bool>)
    requires
        is_variable.len() <= usize::MAX,
    ensures
        forall|k: int| 0 <= k < variable_indexes(is_variable).len() ==> {
            &&& #[trigger] variable_indexes(is_variable)[k] < is_variable.len()
            &&& is_variable[variable_indexes(is_variable)[k] as int]
        },
        forall|k: int, l: int| 0 <= k < l < variable_indexes(is_variable).len()
            ==> #[trigger] variable_indexes(is_variable)[k] < #[trigger] variable_indexes(is_variable)[l],
        forall|i: int| 0 <= i < is_variable.len() && #[trigger] is_variable[i]
            ==> exists|k: int| 0 <= k < variable_indexes(is_variable).len() && variable_indexes(is_variable)[k] == i,
    decreases is_variable.len(),
{
    if is_variable.len() > 0 {
        let init = is_variable.drop_last();
        let p = variable_indexes(init);
        let r = variable_indexes(is_variable);
        let last = is_variable.len() - 1;
        lemma_variable_indexes_exact(init);
        if is_variable.last() {
            assert(r == p.push(last as usize));
        } else {
            assert(r == p);
        }
        assert forall|k: int| 0 <= k < r.len() implies {
            &&& #[trigger] r[k] < is_variable.len()
            &&& is_variable[r[k] as int]
        } by {
            if k < p.len() {
                assert(r[k] == p[k]);
                assert(init[p[k] as int] == is_variable[p[k] as int]);
            } else {
                assert(r[k] == last);
            }
        }
        assert forall|k: int, l: int| 0 <= k < l < r.len() implies #[trigger] r[k] < #[trigger] r[l] by {
            if l < p.len() {
                assert(r[k] == p[k] && r[l] == p[l]);
            } else {
                assert(r[k] == p[k]);
                assert(p[k] < init.len());
                assert(r[l] == last);
            }
        }
        assert forall|i: int| 0 <= i < is_variable.len() && #[trigger] is_variable[i]
            implies exists|k: int| 0 <= k < r.len() && r[k] == i by {
            if i < last {
                assert(init[i] == is_variable[i]);
                let k = choose|k: int| 0 <= k < p.len() && p[k] == i;
                assert(r[k] == p[k]);
            } else {
                assert(r[p.len() as int] == i);
            }
        }
    }
}

/// A run of consecutive term references, the arguments of a call or the
/// places into which terms are written.
pub struct TermRefs {
    allocations: Vec<TermAllocation>,
}

impl View for TermRefs {
    type V = Seq<TermT>;

    closed spec fn view(&self) -> Seq<TermT> {
        self.allocations@.map_values(|a: TermAllocation| a@)
    }
}

impl TermRefs {
    /// The run holds consecutive handles.
    pub open spec fn wf(&self) -> bool {
        is_contiguous(self@)
    }

    /// An empty run.
    pub fn new() -> (refs: TermRefs)
        ensures
            refs@ == Seq::<TermT>::empty(),
            refs.wf(),
    {
        let refs = TermRefs { allocations: Vec::new() };
        assert(refs@ =~= Seq::<TermT>::empty());
        refs
    }

    /// A run of `size` fresh term references; `new_term_refs` is
    /// `PL_new_term_refs` and is called only when `size` is not zero.
    pub fn with_capacity<F: FnOnce(usize) -> TermT>(size: usize, new_term_refs: F) -> (refs: TermRefs)
        requires
            size > 0 ==> new_term_refs.requires((size,)),
            forall|root: TermT| #[trigger] new_term_refs.ensures((size,), root) ==> root + size <= usize::MAX + 1,
        ensures
            refs.wf(),
            size == 0 ==> refs@ == Seq::<TermT>::empty(),
            size > 0 ==> exists|root: TermT| #[trigger] new_term_refs.ensures((size,), root)
                && refs@ == block(root, size as nat),
    {
        let mut refs = TermRefs { allocations: Vec::with_capacity(size) };
        assert(refs@ =~= Seq::<TermT>::empty());
        refs.extend(size, new_term_refs);
        proof {
            if size > 0 {
                let root = choose|root: TermT| #[trigger] new_term_refs.ensures((size,), root)
                    && refs@ == Seq::<TermT>::empty() + block(root, size as nat);
                assert(Seq::<TermT>::empty() + block(root, size as nat) =~= block(root, size as nat));
            }
        }
        refs
    }

    /// The reference at `index`, if there is one.
    pub fn get(&self, index: usize) -> (r: Option<&TermAllocation>)
        ensures
            match r {
                Some(a) => index < self@.len() && a@ == self@[index as int],
                None => index >= self@.len(),
            },
    {
        if index < self.allocations.len() {
            Some(&self.allocations[index])
        } else {
            None
        }
    }

    /// The reference at `index`, if there is one, to be changed in place.
    pub fn get_mut(&mut self, index: usize) -> (r: Option<&mut TermAllocation>)
        ensures
            match r {
                Some(a) => {
                    &&& index < old(self)@.len()
                    &&& a@ == old(self)@[index as int]
                    &&& final(self)@ == old(self)@.update(index as int, final(a)@)
                },
                None => index >= old(self)@.len() && final(self)@ == old(self)@,
            },
    {
        if index < self.allocations.len() {
            Some(&mut self.allocations[index])
        } else {
            None
        }
    }

    /// The number of references.
    pub fn len(&self) -> (n: usize)
        ensures
            n == self@.len(),
    {
        self.allocations.len()
    }

    /// The handle of the first reference, which stands for the whole run
    /// where the C interface takes an argument vector.
    pub fn root(&self) -> (h: TermT)
        requires
            self@.len() > 0,
        ensures
            h == self@[0],
    {
        self.allocations[0].0
    }

    /// Appends `count` fresh term references; `new_term_refs` is
    /// `PL_new_term_refs` and is called only when `count` is not zero. The new
    /// block must follow the last reference of the run.
    pub fn extend<F: FnOnce(usize) -> TermT>(&mut self, count: usize, new_term_refs: F)
        requires
            old(self).wf(),
            count > 0 ==> new_term_refs.requires((count,)),
            forall|root: TermT| #[trigger] new_term_refs.ensures((count,), root) ==> {
                &&& root + count <= usize::MAX + 1
                &&& old(self)@.len() > 0 ==> root == old(self)@.last() + 1
            },
        ensures
            final(self).wf(),
            count == 0 ==> final(self)@ == old(self)@,
            count > 0 ==> exists|root: TermT| #[trigger] new_term_refs.ensures((count,), root)
                && final(self)@ == old(self)@ + block(root, count as nat),
    {
        if count == 0 {
            return;
        }
        let root = new_term_refs(count);
        let ghost start = self@;
        assert(forall|k: int| 0 <= k < start.len() ==> #[trigger] self.allocations@[k]@ == start[k]);
        let mut i: usize = 0;
        while i < count
            invariant
                0 <= i <= count,
                root + count <= usize::MAX + 1,
                start.len() > 0 ==> root == start.last() + 1,
                is_contiguous(start),
                self.allocations@.len() == start.len() + i,
                forall|k: int| 0 <= k < start.len() ==> #[trigger] self.allocations@[k]@ == start[k],
                forall|k: int|
                    start.len() <= k < self.allocations@.len() ==> #[trigger] self.allocations@[k]@ == root + (k
                        - start.len()),
            decreases count - i,
        {
            self.allocations.push(TermAllocation(root + i));
            i = i + 1;
        }
        proof {
            let s = self@;
            assert(s =~= start + block(root, count as nat));
            assert forall|k: int| 0 <= k < s.len() implies #[trigger] s[k] == s[0] + k by {
                if start.len() > 0 {
                    assert(start[start.len() - 1] == start[0] + start.len() - 1);
                }
            }
        }
    }

    /// The positions of the references that hold an unbound variable, where
    /// `is_variable[i]` is what `PL_is_variable` answered for position `i`.
    pub fn collect_variable_indexes(&self, is_variable: &Vec<bool>) -> (indexes: Vec<usize>)
        requires
            is_variable@.len() == self@.len(),
        ensures
            indexes@ == variable_indexes(is_variable@),
    {
        let mut indexes: Vec<usize> = Vec::new();
        let mut i: usize = 0;
        while i < self.allocations.len()
            invariant
                0 <= i <= self.allocations.len(),
                is_variable@.len() == self@.len(),
                self@.len() == self.allocations@.len(),
                indexes@ == variable_indexes(is_variable@.take(i as int)),
            decreases self.allocations.len() - i,
        {
            assert(is_variable@.take(i + 1).drop_last() =~= is_variable@.take(i as int));
            if is_variable[i] {
                indexes.push(i);
            }
            i = i + 1;
        }
        assert(is_variable@.take(i as int) =~= is_variable@);
        indexes
    }
}

} // verus!
