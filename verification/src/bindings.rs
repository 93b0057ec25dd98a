//! Handles of the C interface and the decoding of its status codes.

use vstd::prelude::*;

use std::convert::TryFrom;

verus! {

/// Handle of a term reference (`term_t`).
pub type TermT = usize;
/// Handle of an atom (`atom_t`).
pub type AtomT = usize;
/// Handle of a functor (`functor_t`).
pub type FunctorT = usize;
/// Handle of an open query (`qid_t`).
pub type QidT = usize;
/// Handle of a foreign frame (`fid_t`).
pub type FidT = usize;

/// Result of `PL_set_engine`.
#[derive(Debug, Clone, Copy, PartialEq, Eq, Structural)]
pub enum EngineSetResult {
    Done,
    Invalid,
    InUse,
}

impl EngineSetResult {
    /// The status code that `PL_set_engine` uses for this result.
    pub open spec fn spec_code(&self) -> i32 {
        match self {
            EngineSetResult::Done => 0,
            EngineSetResult::Invalid => 2,
            EngineSetResult::InUse => 3,
        }
    }

    #[verifier::when_used_as_spec(spec_code)]
    pub fn code(&self) -> (c: i32)
        ensures
            c == self.spec_code(),
    {
        match self {
            EngineSetResult::Done => 0,
            EngineSetResult::Invalid => 2,
            EngineSetResult::InUse => 3,
        }
    }
}

/// The result named by a status code of `PL_set_engine`, if any.
pub open spec fn engine_set_result_of(value: i32) -> Result<EngineSetResult, &'static str> {
    if value == 0 {
        Ok(EngineSetResult::Done)
    } else if value == 2 {
        Ok(EngineSetResult::Invalid)
    } else if value == 3 {
        Ok(EngineSetResult::InUse)
    } else {
        Err("Cannot convert value into EngineSetResult")
    }
}

impl TryFrom<i32> for EngineSetResult {
    type Error = &'static str;

    fn try_from(value: i32) -> (r: Result<Self, Self::Error>)
        ensures
            r == engine_set_result_of(value),
    {
        if value == 0 {
            Ok(EngineSetResult::Done)
        } else if value == 2 {
            Ok(EngineSetResult::Invalid)
        } else if value == 3 {
            Ok(EngineSetResult::InUse)
        } else {
            Err("Cannot convert value into EngineSetResult")
        }
    }
}

impl vstd::std_specs::convert::TryFromSpecImpl<i32> for EngineSetResult {
    open spec fn obeys_try_from_spec() -> bool {
        true
    }

    open spec fn try_from_spec(v: i32) -> Result<Self, Self::Error> {
        engine_set_result_of(v)
    }
}

/// Kind of a term as reported by `PL_term_type`.
#[derive(Debug, Clone, Copy, PartialEq, Eq, Structural)]
pub enum TermType {
    Bool,
    Integer,
    Long,
    Double,
    String,
    Atom,
}

impl TermType {
    /// The code that `PL_term_type` returns for this kind.
    pub open spec fn spec_code(&self) -> i32 {
        match self {
            TermType::Bool => 17,
            TermType::Integer => 3,
            TermType::Long => 22,
            TermType::Double => 23,
            TermType::String => 6,
            TermType::Atom => 2,
        }
    }

    #[verifier::when_used_as_spec(spec_code)]
    pub fn code(&self) -> (c: i32)
        ensures
            c == self.spec_code(),
    {
        match self {
            TermType::Bool => 17,
            TermType::Integer => 3,
            TermType::Long => 22,
            TermType::Double => 23,
            TermType::String => 6,
            TermType::Atom => 2,
        }
    }
}

/// The kind named by a code of `PL_term_type`, if any.
pub open spec fn term_type_of(value: i32) -> Option<TermType> {
    if value == 17 {
        Some(TermType::Bool)
    } else if value == 3 {
        Some(TermType::Integer)
    } else if value == 22 {
        Some(TermType::Long)
    } else if value == 23 {
        Some(TermType::Double)
    } else if value == 6 {
        Some(TermType::String)
    } else if value == 2 {
        Some(TermType::Atom)
    } else {
        None
    }
}

impl TryFrom<i32> for TermType {
    type Error = &'static str;

    fn try_from(value: i32) -> (r: Result<Self, Self::Error>)
        ensures
            match term_type_of(value) {
                Some(t) => r == Ok::<TermType, &'static str>(t),
                None => r == Err::<TermType, &'static str>("Cannot convert value into TermType"),
            },
    {
        if value == 17 {
            Ok(TermType::Bool)
        } else if value == 3 {
            Ok(TermType::Integer)
        } else if value == 22 {
            Ok(TermType::Long)
        } else if value == 23 {
            Ok(TermType::Double)
        } else if value == 6 {
            Ok(TermType::String)
        } else if value == 2 {
            Ok(TermType::Atom)
        } else {
            Err("Cannot convert value into TermType")
        }
    }
}

impl vstd::std_specs::convert::TryFromSpecImpl<i32> for TermType {
    open spec fn obeys_try_from_spec() -> bool {
        true
    }

    open spec fn try_from_spec(v: i32) -> Result<Self, Self::Error> {
        match term_type_of(v) {
            Some(t) => Ok(t),
            None => Err("Cannot convert value into TermType"),
        }
    }
}

/// Flags passed to `PL_open_query` and `PL_call_predicate`.
#[derive(Debug, Clone, Copy, PartialEq, Eq, Structural)]
pub enum QueryFlags {
    Normal,
    NoDebug,
    CatchException,
    PassException,
    AllowYield,
    ExtStatus,
}

impl QueryFlags {
    /// The bit that the C interface uses for this flag.
    pub open spec fn spec_code(&self) -> i32 {
        match self {
            QueryFlags::Normal => 2,
            QueryFlags::NoDebug => 4,
            QueryFlags::CatchException => 8,
            QueryFlags::PassException => 16,
            QueryFlags::AllowYield => 32,
            QueryFlags::ExtStatus => 64,
        }
    }

    #[verifier::when_used_as_spec(spec_code)]
    pub fn code(&self) -> (c: i32)
        ensures
            c == self.spec_code(),
    {
        match self {
            QueryFlags::Normal => 2,
            QueryFlags::NoDebug => 4,
            QueryFlags::CatchException => 8,
            QueryFlags::PassException => 16,
            QueryFlags::AllowYield => 32,
            QueryFlags::ExtStatus => 64,
        }
    }
}

/// The flags with which queries are opened and predicates called.
pub const QUERY_FLAGS: QueryFlags = QueryFlags::Normal;

/// Outcome of a call, as decoded from the status code of the C interface:
/// `PL_S_TRUE` (1), `PL_S_FALSE` (0) and `PL_S_LAST` (2). Any other code, such
/// as `PL_S_EXCEPTION` (-1), names no outcome.
#[derive(Debug, Clone, Copy, PartialEq, Eq, Structural)]
pub enum QueryResult {
    True,
    False,
    Last,
}

impl QueryResult {
    /// The status code that stands for this outcome.
    pub open spec fn spec_code(&self) -> i32 {
        match self {
            QueryResult::True => 1,
            QueryResult::False => 0,
            QueryResult::Last => 2,
        }
    }

    #[verifier::when_used_as_spec(spec_code)]
    pub fn code(&self) -> (c: i32)
        ensures
            c == self.spec_code(),
    {
        match self {
            QueryResult::True => 1,
            QueryResult::False => 0,
            QueryResult::Last => 2,
        }
    }

    /// Whether the outcome counts as success.
    pub open spec fn spec_succeeded(self) -> bool {
        match self {
            QueryResult::True => true,
            QueryResult::False => false,
            QueryResult::Last => true,
        }
    }
}

/// The outcome named by a status code, if any.
pub open spec fn query_result_of(value: i32) -> Option<QueryResult> {
    if value == 1 {
        Some(QueryResult::True)
    } else if value == 0 {
        Some(QueryResult::False)
    } else if value == 2 {
        Some(QueryResult::Last)
    } else {
        None
    }
}

/// The message with which an unknown status code is refused.
pub open spec fn query_result_error() -> Seq<char> {
    "Cannot convert value into QueryResult"@
}

impl TryFrom<i32> for QueryResult {
    type Error = String;

    /// Decodes a status code; an unknown code is refused with a message. The
    /// message is a `String` known by its characters, so the outcome is
    /// stated here rather than through `try_from_spec`.
    fn try_from(value: i32) -> (r: Result<Self, Self::Error>)
        ensures
            match query_result_of(value) {
                Some(q) => r == Ok::<QueryResult, String>(q),
                None => r is Err && r->Err_0@ == query_result_error(),
            },
    {
        if value == 1 {
            Ok(QueryResult::True)
        } else if value == 0 {
            Ok(QueryResult::False)
        } else if value == 2 {
            Ok(QueryResult::Last)
        } else {
            let msg = "Cannot convert value into QueryResult".to_string();
            Err(msg)
        }
    }
}

impl vstd::std_specs::convert::TryFromSpecImpl<i32> for QueryResult {
    open spec fn obeys_try_from_spec() -> bool {
        false
    }

    open spec fn try_from_spec(v: i32) -> Result<Self, Self::Error> {
        Ok(QueryResult::True)
    }
}

impl From<QueryResult> for bool {
    fn from(value: QueryResult) -> (b: bool) {
        match value {
            QueryResult::True => true,
            QueryResult::False => false,
            QueryResult::Last => true,
        }
    }
}

impl vstd::std_specs::convert::FromSpecImpl<QueryResult> for bool {
    open spec fn obeys_from_spec() -> bool {
        true
    }

    open spec fn from_spec(v: QueryResult) -> bool {
        v.spec_succeeded()
    }
}

/// Decoding a status code of `PL_set_engine` undoes encoding it, and a code
/// that decodes is the code of what it decodes to.
pub proof fn lemma_engine_set_result_codes(r: EngineSetResult, value: i32)
    ensures
        engine_set_result_of(r.spec_code()) == Ok::<EngineSetResult, &'static str>(r),
        engine_set_result_of(value) matches Ok(d) ==> d.spec_code() == value,
{
}

/// Decoding a code of `PL_term_type` undoes encoding it, and a code that
/// decodes is the code of what it decodes to.
pub proof fn lemma_term_type_codes(t: TermType, value: i32)
    ensures
        term_type_of(t.spec_code()) == Some(t),
        term_type_of(value) matches Some(d) ==> d.spec_code() == value,
{
}

/// Decoding a status code undoes encoding it, a code that decodes is the code
/// of what it decodes to, and only `False` counts as failure.
pub proof fn lemma_query_result_codes(q: QueryResult, value: i32)
    ensures
        query_result_of(q.spec_code()) == Some(q),
        query_result_of(value) matches Some(d) ==> d.spec_code() == value,
        q.spec_succeeded() <==> q != QueryResult::False,
{
}

} // verus!
