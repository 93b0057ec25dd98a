use std::convert::TryFrom;

use swi_prolog::{EngineSetResult, QueryFlags, QueryResult, TermType, QUERY_FLAGS};

#[test]
fn test_term_type_codes() {
    let all = [
        (TermType::Bool, 17),
        (TermType::Integer, 3),
        (TermType::Long, 22),
        (TermType::Double, 23),
        (TermType::String, 6),
        (TermType::Atom, 2),
    ];
    for (kind, code) in all {
        assert_eq!(kind.code(), code);
        assert_eq!(TermType::try_from(code), Ok(kind));
    }
    assert_eq!(TermType::try_from(0), Err("Cannot convert value into TermType"));
    assert_eq!(TermType::try_from(-1), Err("Cannot convert value into TermType"));
}

#[test]
fn test_engine_set_result_codes() {
    assert_eq!(EngineSetResult::try_from(0), Ok(EngineSetResult::Done));
    assert_eq!(EngineSetResult::try_from(2), Ok(EngineSetResult::Invalid));
    assert_eq!(EngineSetResult::try_from(3), Ok(EngineSetResult::InUse));
    assert_eq!(EngineSetResult::try_from(1), Err("Cannot convert value into EngineSetResult"));
    assert_eq!(EngineSetResult::Done.code(), 0);
    assert_eq!(EngineSetResult::Invalid.code(), 2);
    assert_eq!(EngineSetResult::InUse.code(), 3);
}

#[test]
fn test_query_result_codes() {
    assert_eq!(QueryResult::try_from(1), Ok(QueryResult::True));
    assert_eq!(QueryResult::try_from(0), Ok(QueryResult::False));
    assert_eq!(QueryResult::try_from(2), Ok(QueryResult::Last));
    assert_eq!(QueryResult::try_from(3), Err("Cannot convert value into QueryResult".to_string()));
    assert_eq!(QueryResult::try_from(-1), Err("Cannot convert value into QueryResult".to_string()));
    assert_eq!(QueryResult::True.code(), 1);
    assert_eq!(QueryResult::False.code(), 0);
    assert_eq!(QueryResult::Last.code(), 2);
}

#[test]
fn test_query_result_into_bool() {
    let t: bool = QueryResult::True.into();
    let f: bool = QueryResult::False.into();
    let l: bool = QueryResult::Last.into();
    assert!(t);
    assert!(!f);
    assert!(l);
}

#[test]
fn test_query_flags_codes() {
    assert_eq!(QueryFlags::Normal.code(), 2);
    assert_eq!(QueryFlags::NoDebug.code(), 4);
    assert_eq!(QueryFlags::CatchException.code(), 8);
    assert_eq!(QueryFlags::PassException.code(), 16);
    assert_eq!(QueryFlags::AllowYield.code(), 32);
    assert_eq!(QueryFlags::ExtStatus.code(), 64);
    assert_eq!(QUERY_FLAGS, QueryFlags::Normal);
}
