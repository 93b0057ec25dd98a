//! A verified core for driving the SWI-Prolog foreign interface: the term
//! model, the layout in which terms are written into term references, the
//! bookkeeping of frames and term-reference blocks, the decoding of the status
//! codes of the C interface, and the state of a running query.
//!
//! The calls into `libswipl` themselves are made by the embedding program; this
//! crate decides which calls to make and interprets what they return.

pub mod bindings;
pub mod data;
pub mod term;
pub mod term_refs;
pub mod steps;
pub mod layout;
pub mod frame;
pub mod term_write;
pub mod functor;
pub mod query;

pub use data::Data;
pub use term::{Leaf, Term};
pub use term_refs::{TermAllocation, TermRefs};
pub use frame::Frame;
pub use steps::WriteStep;
pub use query::{Query, QueryPhase};
pub use functor::Functor;
pub use bindings::{QUERY_FLAGS, EngineSetResult, QueryFlags, QueryResult, TermType, TermT, AtomT, FunctorT, QidT, FidT};
