use std::cell::Cell;

use swi_prolog::{TermAllocation, TermRefs};

#[test]
fn test_term_refs_new_is_empty() {
    let refs = TermRefs::new();
    assert_eq!(refs.len(), 0);
    assert!(refs.get(0).is_none());
}

#[test]
fn test_term_refs_with_capacity() {
    let refs = TermRefs::with_capacity(3, |n| {
        assert_eq!(n, 3);
        100
    });
    assert_eq!(refs.len(), 3);
    assert_eq!(refs.get(0).unwrap().handle(), 100);
    assert_eq!(refs.get(1).unwrap().handle(), 101);
    assert_eq!(refs.get(2).unwrap().handle(), 102);
    assert!(refs.get(3).is_none());
    assert_eq!(refs.root(), 100);

    let calls = Cell::new(0);
    let empty = TermRefs::with_capacity(0, |_| {
        calls.set(calls.get() + 1);
        7
    });
    assert_eq!(empty.len(), 0);
    assert_eq!(calls.get(), 0);
}

#[test]
fn test_term_refs_extend() {
    let mut refs = TermRefs::with_capacity(2, |_| 20);
    refs.extend(0, |_| panic!("no allocation for zero references"));
    assert_eq!(refs.len(), 2);
    refs.extend(3, |n| {
        assert_eq!(n, 3);
        22
    });
    assert_eq!(refs.len(), 5);
    for i in 0..5 {
        assert_eq!(refs.get(i).unwrap().handle(), 20 + i);
    }
}

#[test]
fn test_term_refs_get_mut() {
    let mut refs = TermRefs::with_capacity(2, |_| 4);
    assert_eq!(refs.get_mut(1).unwrap().handle(), 5);
    assert!(refs.get_mut(2).is_none());
}

#[test]
fn test_collect_variable_indexes() {
    let refs = TermRefs::with_capacity(5, |_| 0);
    let indexes = refs.collect_variable_indexes(&vec![true, false, false, true, true]);
    assert_eq!(indexes, vec![0, 3, 4]);
    let none = refs.collect_variable_indexes(&vec![false; 5]);
    assert!(none.is_empty());
}

#[test]
fn test_term_allocation_from_raw() {
    assert_eq!(TermAllocation::from_raw(42).handle(), 42);
}
