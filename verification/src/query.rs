//! The state of a query or call, from the root term to its outcome.

use vstd::prelude::*;

use crate::bindings::{query_result_error, query_result_of, QueryResult, TermT};
use crate::data::Data;
use crate::frame::{is_fresh_run, Frame};
use crate::layout::{lemma_term_plan_builds, lemma_term_size_used, term_plan, term_size, terms_plan, terms_size, write_used};
use crate::steps::run_steps;
use crate::term::{tree_of, Tree};
use crate::steps::WriteStep;
use crate::term::Term;
use crate::term_refs::{variable_indexes, TermRefs};

verus! {

/// Where a query stands.
#[derive(Debug, Clone, Copy, PartialEq, Eq, Structural)]
pub enum QueryPhase {
    /// The terms are allocated; the embedding program writes them and checks
    /// which references hold variables.
    Prepared,
    /// The query is open; solutions are collected.
    Open,
}

/// A query or call on one predicate, from the root term to its outcome. The
/// embedding program performs the calls into the C interface that the query
/// asks for and reports what they returned:
///
/// 1. `Query::query` (or `Query::run`) checks the root term and allocates the
///    term references for it in a frame;
/// 2. the program writes `writes()` into `term_refs()`, creates the predicate
///    `name()/arity()`, and reports through `open` which references hold an
///    unbound variable;
/// 3. it opens the query on `args()` and, for every solution that
///    `PL_next_solution` finds, reads the references of `solution_slots()` and
///    reports them through `add_solution`;
/// 4. it closes the query and hands the status code to `close`, which gives the
///    collected solutions. A call instead hands the status code of
///    `PL_call_predicate` to `call_result`.
pub struct Query {
    name: String,
    arity: usize,
    term_refs: TermRefs,
    writes: Vec<WriteStep>,
    variable_indexes: Vec<usize>,
    results: Vec<Vec<Data>>,
    phase: QueryPhase,
}

/// The error given for a root term that is not a compound.
pub open spec fn root_error() -> Seq<char> {
    "Root term must be Term::Predicate"@
}

/// The error given when the frame cannot allocate term references.
pub open spec fn allocation_error() -> Seq<char> {
    "Failed to allocate terms"@
}

impl Query {
    /// The name of the predicate.
    pub closed spec fn spec_name(&self) -> String {
        self.name
    }

    /// The arity of the predicate.
    pub closed spec fn spec_arity(&self) -> usize {
        self.arity
    }

    /// The term references holding the root term's arguments.
    pub closed spec fn spec_refs(&self) -> Seq<TermT> {
        self.term_refs@
    }

    /// The steps that write the root term into the references.
    pub closed spec fn spec_writes(&self) -> Seq<WriteStep> {
        self.writes@
    }

    /// The positions of the references that hold a variable.
    pub closed spec fn spec_variables(&self) -> Seq<usize> {
        self.variable_indexes@
    }

    /// The solutions collected so far, one row per solution.
    pub closed spec fn spec_results(&self) -> Seq<Seq<Data>> {
        self.results@.map_values(|row: Vec<Data>| row@)
    }

    /// Where the query stands.
    pub closed spec fn spec_phase(&self) -> QueryPhase {
        self.phase
    }

    /// The state is consistent: the references are one block, the variable
    /// positions lie in it, and each solution has a value per variable.
    pub closed spec fn wf(&self) -> bool {
        &&& self.term_refs.wf()
        &&& self.term_refs@.len() > 0
        &&& forall|k: int| 0 <= k < self.variable_indexes@.len() ==> #[trigger] self.variable_indexes@[k] < self.term_refs@.len()
        &&& forall|k: int| 0 <= k < self.results@.len() ==> #[trigger] self.results@[k]@.len() == self.variable_indexes@.len()
        &&& self.phase == QueryPhase::Prepared ==> self.variable_indexes@.len() == 0 && self.results@.len() == 0
    }

    /// A fresh query on the root term `term`: the predicate is its name and
    /// arity, the references are a fresh block of as many as writing it takes,
    /// allocated through `new_term_refs`, and the writes are those that put it
    /// into them.
    pub open spec fn prepared_for<F: FnOnce(usize) -> TermT>(self, term: Term, new_term_refs: F) -> bool {
        &&& self.wf()
        &&& self.spec_phase() == QueryPhase::Prepared
        &&& term matches Term::Predicate(name, args) && self.spec_name() == name && self.spec_arity() == args@.len()
        &&& self.spec_writes() == terms_plan(seq![term], 0)
        &&& self.spec_refs().len() == terms_size(seq![term])
        &&& is_fresh_run(self.spec_term_refs(), terms_size(seq![term]) as usize, new_term_refs)
        &&& self.spec_results().len() == 0
    }

    /// The run of term references itself.
    pub closed spec fn spec_term_refs(&self) -> TermRefs {
        self.term_refs
    }

    fn prepare<F: FnOnce(usize) -> TermT>(frame: &Frame, term: Term, new_term_refs: F) -> (r: Result<Query, String>)
        requires
            terms_size(seq![term]) <= usize::MAX,
            term is Predicate && !frame.has_child() ==> new_term_refs.requires((terms_size(seq![term]) as usize,)),
            forall|root: TermT| #[trigger] new_term_refs.ensures((terms_size(seq![term]) as usize,), root)
                ==> root + terms_size(seq![term]) <= usize::MAX + 1,
        ensures
            !(term is Predicate) ==> r is Err && r->Err_0@ == root_error(),
            term is Predicate && frame.has_child() ==> r is Err && r->Err_0@ == allocation_error(),
            term is Predicate && !frame.has_child() ==> (r matches Ok(q) && q.prepared_for(term, new_term_refs)),
    {
        let (name, arity) = match &term {
            Term::Predicate(name, args) => (name.clone(), args.len()),
            _ => {
                let msg = "Root term must be Term::Predicate".to_string();
                proof {
                    reveal_strlit("Root term must be Term::Predicate");
                }
                return Err(msg);
            },
        };
        let ghost root = term;
        let mut terms: Vec<Term> = Vec::new();
        terms.push(term);
        assert(terms@ =~= seq![root]);
        match frame.allocate_and_write(terms, new_term_refs) {
            Some((term_refs, writes)) => {
                proof {
                    reveal_with_fuel(terms_size, 2);
                }
                assert(term_refs@.len() > 0);
                Ok(
                    Query {
                        name,
                        arity,
                        term_refs,
                        writes,
                        variable_indexes: Vec::new(),
                        results: Vec::new(),
                        phase: QueryPhase::Prepared,
                    },
                )
            },
            None => {
                let msg = "Failed to allocate terms".to_string();
                proof {
                    reveal_strlit("Failed to allocate terms");
                }
                Err(msg)
            },
        }
    }

    /// Begins a query on the root term `term` in `frame`; `new_term_refs` is
    /// `PL_new_term_refs`. A root term that is not a compound is refused, and
    /// so is a frame that cannot allocate (one that has a nested frame).
    pub fn query<F: FnOnce(usize) -> TermT>(frame: &Frame, term: Term, new_term_refs: F) -> (r: Result<Query, String>)
        requires
            terms_size(seq![term]) <= usize::MAX,
            term is Predicate && !frame.has_child() ==> new_term_refs.requires((terms_size(seq![term]) as usize,)),
            forall|root: TermT| #[trigger] new_term_refs.ensures((terms_size(seq![term]) as usize,), root)
                ==> root + terms_size(seq![term]) <= usize::MAX + 1,
        ensures
            !(term is Predicate) ==> r is Err && r->Err_0@ == root_error(),
            term is Predicate && frame.has_child() ==> r is Err && r->Err_0@ == allocation_error(),
            term is Predicate && !frame.has_child() ==> (r matches Ok(q) && q.prepared_for(term, new_term_refs)),
    {
        Query::prepare(frame, term, new_term_refs)
    }

    /// Begins a call of the root term `term` in `frame`, whose outcome is a
    /// truth value (see `call_result`); it is refused as `query` is.
    pub fn run<F: FnOnce(usize) -> TermT>(frame: &Frame, term: Term, new_term_refs: F) -> (r: Result<Query, String>)
        requires
            terms_size(seq![term]) <= usize::MAX,
            term is Predicate && !frame.has_child() ==> new_term_refs.requires((terms_size(seq![term]) as usize,)),
            forall|root: TermT| #[trigger] new_term_refs.ensures((terms_size(seq![term]) as usize,), root)
                ==> root + terms_size(seq![term]) <= usize::MAX + 1,
        ensures
            !(term is Predicate) ==> r is Err && r->Err_0@ == root_error(),
            term is Predicate && frame.has_child() ==> r is Err && r->Err_0@ == allocation_error(),
            term is Predicate && !frame.has_child() ==> (r matches Ok(q) && q.prepared_for(term, new_term_refs)),
    {
        Query::prepare(frame, term, new_term_refs)
    }

    /// The name of the predicate.
    pub fn name(&self) -> (n: &String)
        ensures
            *n == self.spec_name(),
    {
        &self.name
    }

    /// The arity of the predicate.
    pub fn arity(&self) -> (a: usize)
        ensures
            a == self.spec_arity(),
    {
        self.arity
    }

    /// The term references that the root term is written into.
    pub fn term_refs(&self) -> (refs: &TermRefs)
        ensures
            refs@ == self.spec_refs(),
            self.wf() ==> refs.wf(),
    {
        &self.term_refs
    }

    /// The steps that write the root term into `term_refs()`.
    pub fn writes(&self) -> (w: &Vec<WriteStep>)
        ensures
            w@ == self.spec_writes(),
    {
        &self.writes
    }

    /// The first of the term references: the argument vector of the query.
    pub fn args(&self) -> (h: TermT)
        requires
            self.wf(),
        ensures
            h == self.spec_refs()[0],
    {
        self.term_refs.root()
    }

    /// Records which references hold an unbound variable once the root term
    /// is written (`is_variable[i]` is what `PL_is_variable` answered for
    /// position `i`); the query is then open.
    pub fn open(&mut self, is_variable: &Vec<bool>)
        requires
            old(self).wf(),
            old(self).spec_phase() == QueryPhase::Prepared,
            is_variable@.len() == old(self).spec_refs().len(),
        ensures
            final(self).wf(),
            final(self).spec_phase() == QueryPhase::Open,
            final(self).spec_variables() == variable_indexes(is_variable@),
            final(self).spec_results().len() == 0,
            final(self).spec_name() == old(self).spec_name(),
            final(self).spec_arity() == old(self).spec_arity(),
            final(self).spec_refs() == old(self).spec_refs(),
            final(self).spec_writes() == old(self).spec_writes(),
    {
        let indexes = self.term_refs.collect_variable_indexes(is_variable);
        proof {
            lemma_variable_indexes_bounded(is_variable@);
        }
        self.variable_indexes = indexes;
        self.phase = QueryPhase::Open;
        assert(self.spec_results() =~= Seq::<Seq<Data>>::empty());
    }

    /// The references to read, in order, for a solution: those that held a
    /// variable.
    pub fn solution_slots(&self) -> (slots: Vec<TermT>)
        requires
            self.wf(),
        ensures
            slots@.len() == self.spec_variables().len(),
            forall|k: int| 0 <= k < slots@.len() ==> #[trigger] slots@[k] == self.spec_refs()[self.spec_variables()[k] as int],
    {
        let mut slots: Vec<TermT> = Vec::new();
        let mut k: usize = 0;
        while k < self.variable_indexes.len()
            invariant
                self.wf(),
                0 <= k <= self.variable_indexes@.len(),
                slots@.len() == k,
                forall|j: int| 0 <= j < k ==> #[trigger] slots@[j] == self.term_refs@[self.variable_indexes@[j] as int],
            decreases self.variable_indexes@.len() - k,
        {
            let index = self.variable_indexes[k];
            assert(self.variable_indexes@[k as int] < self.term_refs@.len());
            let allocation = self.term_refs.get(index);
            match allocation {
                Some(a) => slots.push(a.handle()),
                None => {},
            }
            k = k + 1;
        }
        slots
    }

    /// Records a solution: the values read from `solution_slots()`.
    pub fn add_solution(&mut self, row: Vec<Data>)
        requires
            old(self).wf(),
            old(self).spec_phase() == QueryPhase::Open,
            row@.len() == old(self).spec_variables().len(),
        ensures
            final(self).wf(),
            final(self).spec_results() == old(self).spec_results().push(row@),
            final(self).spec_phase() == old(self).spec_phase(),
            final(self).spec_variables() == old(self).spec_variables(),
            final(self).spec_name() == old(self).spec_name(),
            final(self).spec_arity() == old(self).spec_arity(),
            final(self).spec_refs() == old(self).spec_refs(),
            final(self).spec_writes() == old(self).spec_writes(),
    {
        let ghost row_view = row@;
        self.results.push(row);
        assert(self.spec_results() =~= old(self).spec_results().push(row_view));
    }

    /// The outcome of the query once it is closed with status `code`
    /// (`PL_close_query`): the solutions collected, or the error for a code
    /// that names no outcome.
    pub fn close(self, code: i32) -> (r: Result<Vec<Vec<Data>>, String>)
        requires
            self.wf(),
        ensures
            match query_result_of(code) {
                Some(_) => r matches Ok(rows) && rows@.map_values(|row: Vec<Data>| row@) == self.spec_results(),
                None => r is Err && r->Err_0@ == query_result_error(),
            },
    {
        match QueryResult::try_from(code) {
            Ok(_) => Ok(self.results),
            Err(exception) => Err(exception),
        }
    }

    /// The outcome of a call with status `code` (`PL_call_predicate`): whether
    /// it succeeded, or the error for a code that names no outcome.
    pub fn call_result(&self, code: i32) -> (r: Result<bool, String>)
        ensures
            match query_result_of(code) {
                Some(q) => r == Ok::<bool, String>(q.spec_succeeded()),
                None => r is Err && r->Err_0@ == query_result_error(),
            },
    {
        match QueryResult::try_from(code) {
            Ok(query_result) => Ok(query_result.into()),
            Err(error) => Err(error),
        }
    }
}

/// Performing the writes of a query on the compound `term` builds the tree of
/// each argument in the references from the first on, so those are the
/// argument vector the query is opened on (`args()`), and builds the compound
/// itself into the last reference.
pub proof fn lemma_query_arguments<F: FnOnce(usize) -> TermT>(q: Query, term: Term, new_term_refs: F, store: spec_fn(int) -> Tree)
    requires
        q.prepared_for(term, new_term_refs),
    ensures
        term matches Term::Predicate(_, args) ==> forall|i: int| 0 <= i < args@.len()
            ==> #[trigger] run_steps(q.spec_writes(), store)(i) == tree_of(args@[i]),
        run_steps(q.spec_writes(), store)(q.spec_refs().len() - 1) == tree_of(term),
{
    let single = seq![term];
    assert(single.drop_last() =~= Seq::<Term>::empty());
    assert(single.last() == term);
    assert(terms_size(Seq::<Term>::empty()) == 0);
    assert(terms_size(single) == term_size(term));
    assert(terms_plan(Seq::<Term>::empty(), 0) == Seq::<WriteStep>::empty());
    assert(terms_plan(single, 0) == terms_plan(single.drop_last(), 0) + term_plan(single.last(), 0));
    assert(terms_plan(single, 0) =~= term_plan(term, 0));
    lemma_term_size_used(term);
    lemma_term_plan_builds(term, 0, store);
    let s2 = run_steps(term_plan(term, 0), store);
    assert(run_steps(q.spec_writes(), store) == s2);
    if let Term::Predicate(_, args) = term {
        assert forall|i: int| 0 <= i < args@.len() implies #[trigger] run_steps(q.spec_writes(), store)(i) == tree_of(args@[i]) by {
            assert(s2(0 + i) == tree_of(args@[i]));
        }
    }
}

/// Every position that `variable_indexes` gives lies within the flags.
pub proof fn lemma_variable_indexes_bounded(is_variable: Seq<bool>)
    ensures
        forall|k: int| 0 <= k < variable_indexes(is_variable).len() ==> #[trigger] variable_indexes(is_variable)[k] < is_variable.len(),
    decreases is_variable.len(),
{
    if is_variable.len() > 0 {
        let prefix = variable_indexes(is_variable.drop_last());
        lemma_variable_indexes_bounded(is_variable.drop_last());
        let v = variable_indexes(is_variable);
        assert forall|k: int| 0 <= k < v.len() implies #[trigger] v[k] < is_variable.len() by {
            if k < prefix.len() {
                assert(v[k] == prefix[k]);
            }
        }
    }
}

} // verus!
