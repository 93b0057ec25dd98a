use std::cell::Cell;

use swi_prolog::{Data, Frame, Query, QueryPhase, Term, WriteStep, Leaf};

#[test]
fn test_load_file_runtime() {
    let frame = Frame::new(|| 1);
    let next = Cell::new(0usize);
    let alloc = |n: usize| {
        let root = next.get();
        next.set(root + n);
        root
    };

    // load_files("./src/test/test_file") in module test_load_file_runtime
    let load = Query::run(&frame, Term::from(("load_files", vec![Term::from("./src/test/test_file")])), alloc).unwrap();
    assert_eq!(load.name(), "load_files");
    assert_eq!(load.arity(), 1);
    assert_eq!(load.call_result(1), Ok(true));

    // friend(X)
    let mut query = Query::query(&frame, Term::from(("friend", vec![Term::from(())])), alloc).unwrap();
    assert_eq!(query.name(), "friend");
    assert_eq!(query.arity(), 1);
    assert_eq!(query.writes()[0], WriteStep::Put { slot: 0, leaf: Leaf::Variable });
    let args = query.args();
    assert_eq!(args, query.term_refs().get(0).unwrap().handle());
    query.open(&vec![true, false]);
    let slots = query.solution_slots();
    assert_eq!(slots, vec![args]);
    for person in ["person1", "person2", "person3"] {
        query.add_solution(vec![Data::from(person)]);
    }
    let result = query.close(1).unwrap();

    assert!(result.len() == 3);
    assert!(result.get(0).unwrap() == &vec![Data::from("person1")]);
    assert!(result.get(1).unwrap() == &vec![Data::from("person2")]);
    assert!(result.get(2).unwrap() == &vec![Data::from("person3")]);
}

#[test]
fn test_query_root_must_be_compound() {
    let frame = Frame::new(|| 1);
    let err = Query::query(&frame, Term::from(1i32), |_| 0).err().unwrap();
    assert_eq!(err, "Root term must be Term::Predicate");
    let err = Query::run(&frame, Term::from(()), |_| 0).err().unwrap();
    assert_eq!(err, "Root term must be Term::Predicate");
}

#[test]
fn test_query_needs_an_allocating_frame() {
    let mut frame = Frame::new(|| 1);
    let _child = frame.nest(|| 2).unwrap();
    let err = Query::query(&frame, Term::from(("p", vec![Term::from(1i32)])), |_| 0).err().unwrap();
    assert_eq!(err, "Failed to allocate terms");
}

#[test]
fn test_query_close_codes() {
    let frame = Frame::new(|| 1);
    let mut query = Query::query(&frame, Term::from(("p", vec![Term::from(()), Term::from(2i32), Term::from(())])), |_| 10).unwrap();
    query.open(&vec![true, false, true, false]);
    assert_eq!(query.solution_slots(), vec![10, 12]);
    query.add_solution(vec![Data::from(1i32), Data::from("b")]);
    assert_eq!(query.close(-1), Err("Cannot convert value into QueryResult".to_string()));

    let mut query = Query::query(&frame, Term::from(("p", vec![Term::from(())])), |_| 10).unwrap();
    query.open(&vec![true, false]);
    assert_eq!(query.close(2), Ok(vec![]));
}

#[test]
fn test_call_result_codes() {
    let frame = Frame::new(|| 1);
    let call = Query::run(&frame, Term::from(("p", vec![Term::from(1i32)])), |_| 0).unwrap();
    assert_eq!(call.call_result(1), Ok(true));
    assert_eq!(call.call_result(0), Ok(false));
    assert_eq!(call.call_result(2), Ok(true));
    assert_eq!(call.call_result(-1), Err("Cannot convert value into QueryResult".to_string()));
    assert_eq!(call.call_result(3), Err("Cannot convert value into QueryResult".to_string()));
    let _ = QueryPhase::Open;
}
