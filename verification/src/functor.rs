//! Functors.

use vstd::prelude::*;

use crate::bindings::FunctorT;

verus! {

/// A functor (`functor_t`): a name and an arity, as the C interface knows it.
#[derive(Clone, Copy, Debug)]
pub struct Functor(FunctorT);

impl View for Functor {
    type V = FunctorT;

    closed spec fn view(&self) -> FunctorT {
        self.0
    }
}

impl Functor {
    /// The functor `name/ariety`, as `new_functor` (`PL_new_atom` and
    /// `PL_new_functor_sz`) makes it.
    pub fn new<F: FnOnce(&str, usize) -> FunctorT>(name: &str, ariety: usize, new_functor: F) -> (f: Functor)
        requires
            new_functor.requires((name, ariety)),
        ensures
            new_functor.ensures((name, ariety), f@),
    {
        Functor(new_functor(name, ariety))
    }

    /// The functor with the handle `functor`.
    pub fn from_raw(functor: FunctorT) -> (f: Functor)
        ensures
            f@ == functor,
    {
        Functor(functor)
    }

    /// The handle of the functor.
    pub fn handle(&self) -> (h: FunctorT)
        ensures
            h == self@,
    {
        self.0
    }
}

} // verus!
