//! Foreign frames.

use vstd::prelude::*;

use crate::bindings::{FidT, TermT};
use crate::layout::{count_all, lemma_take_step, lemma_terms_size_prefix, term_plan, terms_plan, terms_size, write_term};
use crate::steps::WriteStep;
use crate::term::Term;
use crate::term_refs::{block, TermRefs};

verus! {

/// A foreign frame (`fid_t`). Term references are created in a frame; a
/// frame that has opened a nested frame creates none itself, and keeps so
/// after the nested frame is gone, since a nested frame holds no link back.
/// A `Frame` going out of scope does not discard the foreign frame: the
/// embedding program takes its handle with `into_handle` and discards it
/// (`PL_discard_foreign_frame`), which frees the term references made in it.
pub struct Frame {
    handle: FidT,
    have_child: bool,
}

impl Frame {
    /// The handle of the frame.
    pub closed spec fn spec_handle(&self) -> FidT {
        self.handle
    }

    /// Whether a nested frame has been opened on this frame.
    pub closed spec fn has_child(&self) -> bool {
        self.have_child
    }

    /// A frame on the handle that `open_foreign_frame`
    /// (`PL_open_foreign_frame`) returns.
    pub fn new<F: FnOnce() -> FidT>(open_foreign_frame: F) -> (frame: Frame)
        requires
            open_foreign_frame.requires(()),
        ensures
            open_foreign_frame.ensures((), frame.spec_handle()),
            !frame.has_child(),
    {
        Frame { handle: open_foreign_frame(), have_child: false }
    }

    /// Whether a nested frame has been opened on this frame, so that it
    /// allocates no term references.
    pub fn has_nested_frame(&self) -> (b: bool)
        ensures
            b == self.has_child(),
    {
        self.have_child
    }

    /// The handle of the frame.
    pub fn handle(&self) -> (h: FidT)
        ensures
            h == self.spec_handle(),
    {
        self.handle
    }

    /// Gives up the frame for discarding, returning its handle.
    pub fn into_handle(self) -> (h: FidT)
        ensures
            h == self.spec_handle(),
    {
        self.handle
    }

    /// Opens a nested frame, unless one was opened on this frame before; the
    /// foreign frame is opened only when the nested frame is made.
    pub fn nest<F: FnOnce() -> FidT>(&mut self, open_foreign_frame: F) -> (child: Option<Frame>)
        requires
            !old(self).has_child() ==> open_foreign_frame.requires(()),
        ensures
            nested(*old(self), *final(self), child),
            child matches Some(c) ==> open_foreign_frame.ensures((), c.spec_handle()),
    {
        if !self.have_child {
            self.have_child = true;
            let frame = Frame::new(open_foreign_frame);
            Some(frame)
        } else {
            None
        }
    }

    /// A run of `size` fresh term references in this frame, unless a nested
    /// frame was opened on it.
    pub fn create_term_refs<F: FnOnce(usize) -> TermT>(&self, size: usize, new_term_refs: F) -> (refs: Option<TermRefs>)
        requires
            !self.has_child() && size > 0 ==> new_term_refs.requires((size,)),
            forall|root: TermT| #[trigger] new_term_refs.ensures((size,), root) ==> root + size <= usize::MAX + 1,
        ensures
            refs is None <==> self.has_child(),
            refs matches Some(r) ==> is_fresh_run(r, size, new_term_refs),
    {
        if !self.have_child {
            Some(TermRefs::with_capacity(size, new_term_refs))
        } else {
            None
        }
    }

    /// Allocates the term references that `terms` take in this frame, unless
    /// a nested frame was opened on it, and gives the steps that write the
    /// terms into them, one after the other from the first reference on.
    pub fn allocate_and_write<F: FnOnce(usize) -> TermT>(&self, terms: Vec<Term>, new_term_refs: F) -> (r: Option<(TermRefs, Vec<WriteStep>)>)
        requires
            terms_size(terms@) <= usize::MAX,
            !self.has_child() && terms_size(terms@) > 0 ==> new_term_refs.requires((terms_size(terms@) as usize,)),
            forall|root: TermT| #[trigger] new_term_refs.ensures((terms_size(terms@) as usize,), root)
                ==> root + terms_size(terms@) <= usize::MAX + 1,
        ensures
            r is None <==> self.has_child(),
            r matches Some((refs, steps)) ==> {
                &&& is_fresh_run(refs, terms_size(terms@) as usize, new_term_refs)
                &&& steps@ == terms_plan(terms@, 0)
            },
    {
        if !self.have_child {
            let allocation_count = count_all(&terms);
            let term_refs = TermRefs::with_capacity(allocation_count, new_term_refs);
            let mut steps: Vec<WriteStep> = Vec::new();
            let mut offset: usize = 0;
            let mut i: usize = 0;
            while i < terms.len()
                invariant
                    0 <= i <= terms@.len(),
                    terms_size(terms@) <= usize::MAX,
                    offset == terms_size(terms@.take(i as int)),
                    steps@ == terms_plan(terms@.take(i as int), 0),
                decreases terms@.len() - i,
            {
                proof {
                    lemma_take_step(terms@, i as int);
                    lemma_terms_size_prefix(terms@, i + 1);
                }
                offset = write_term(&mut steps, offset, &terms[i]);
                proof {
                    let t = terms@.take(i + 1);
                    assert(terms_plan(t, 0) == terms_plan(t.drop_last(), 0) + term_plan(t.last(), terms_size(t.drop_last()) as int));
                }
                i = i + 1;
            }
            assert(terms@.take(i as int) =~= terms@);
            Some((term_refs, steps))
        } else {
            None
        }
    }
}

/// What `Frame::nest` does: a frame without a nested frame opens one, which
/// itself has none, and from then on has one; a frame with a nested frame
/// stays as it is and opens none.
pub open spec fn nested(before: Frame, after: Frame, child: Option<Frame>) -> bool {
    if before.has_child() {
        child is None && after == before
    } else {
        &&& child matches Some(c) && !c.has_child()
        &&& after.has_child()
        &&& after.spec_handle() == before.spec_handle()
    }
}

/// `refs` is a fresh block of `size` consecutive term references, as
/// `new_term_refs` gives them; with `size` zero it is empty.
pub open spec fn is_fresh_run<F: FnOnce(usize) -> TermT>(refs: TermRefs, size: usize, new_term_refs: F) -> bool {
    &&& refs.wf()
    &&& size == 0 ==> refs@ == Seq::<TermT>::empty()
    &&& size > 0 ==> exists|root: TermT| #[trigger] new_term_refs.ensures((size,), root)
        && refs@ == block(root, size as nat)
}

/// A frame nests at most one frame: once `nest` has opened a nested frame, a
/// further `nest` opens none.
pub proof fn lemma_nest_once(f0: Frame, f1: Frame, c1: Option<Frame>, f2: Frame, c2: Option<Frame>)
    requires
        nested(f0, f1, c1),
        nested(f1, f2, c2),
        c1 is Some,
    ensures
        c2 is None,
        f2 == f1,
{
}

} // verus!
