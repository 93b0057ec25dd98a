use std::cell::Cell;
use std::collections::HashMap;

use swi_prolog::layout::{checked_term_size, checked_terms_size};
use swi_prolog::{Data, Frame, Leaf, Term, TermRefs, TermT, WriteStep};

/// A stand-in for the term store of the C interface: hands out consecutive
/// term references and remembers what was put into them.
struct Store {
    next: Cell<usize>,
    values: HashMap<TermT, Leaf>,
}

impl Store {
    fn new(first: usize) -> Store {
        Store { next: Cell::new(first), values: HashMap::new() }
    }

    fn new_term_refs(&self, count: usize) -> TermT {
        let root = self.next.get();
        self.next.set(root + count);
        root
    }

    fn perform(&mut self, refs: &TermRefs, steps: &[WriteStep]) {
        for step in steps {
            match step {
                WriteStep::Put { slot, leaf } => {
                    let handle = refs.get(*slot).unwrap().handle();
                    self.values.insert(handle, leaf.clone());
                }
                WriteStep::Cons { .. } => {}
                WriteStep::Allocate { .. } => panic!("no allocation expected"),
            }
        }
    }

    fn read(&self, handle: TermT) -> Data {
        match self.values.get(&handle).unwrap() {
            Leaf::Bool(v) => Data::Bool(*v),
            Leaf::I32(v) => Data::I32(*v),
            Leaf::I64(v) => Data::I64(*v),
            Leaf::F64(v) => Data::F64(*v),
            Leaf::String(v) => Data::String(v.clone()),
            Leaf::Variable => panic!("unbound"),
        }
    }
}

#[test]
fn test_frame_i32() {
    let mut store = Store::new(10);
    let frame = Frame::new(|| 1);
    let args = vec![Term::from(1i32), Term::from(2i32), Term::from(3i32)];
    let (stack, steps) = frame.allocate_and_write(args, |n| store.new_term_refs(n)).unwrap();
    store.perform(&stack, &steps);

    assert!(store.read(stack.get(0).unwrap().handle()) == Data::from(1i32));
    assert!(store.read(stack.get(1).unwrap().handle()) == Data::from(2i32));
    assert!(store.read(stack.get(2).unwrap().handle()) == Data::from(3i32));
}

#[test]
fn test_frame_string() {
    let mut store = Store::new(10);
    let frame = Frame::new(|| 1);
    let args = vec![Term::from("data1"), Term::from("data2"), Term::from("data3")];
    let (stack, steps) = frame.allocate_and_write(args, |n| store.new_term_refs(n)).unwrap();
    store.perform(&stack, &steps);

    assert!(store.read(stack.get(0).unwrap().handle()) == Data::from("data1"));
    assert!(store.read(stack.get(1).unwrap().handle()) == Data::from("data2"));
    assert!(store.read(stack.get(2).unwrap().handle()) == Data::from("data3"));
}

#[test]
fn test_frame_string_i32() {
    let mut store = Store::new(10);
    let frame = Frame::new(|| 1);
    let args = vec![Term::from("data1"), Term::from(2i32)];
    let (stack, steps) = frame.allocate_and_write(args, |n| store.new_term_refs(n)).unwrap();
    store.perform(&stack, &steps);

    assert!(store.read(stack.get(0).unwrap().handle()) == Data::from("data1"));
    assert!(store.read(stack.get(1).unwrap().handle()) == Data::from(2i32));
}

#[test]
fn test_allocate_and_write_compound_layout() {
    let frame = Frame::new(|| 1);
    let store = Store::new(40);
    let term = Term::from(("friend", vec![Term::from(())]));
    let (refs, steps) = frame.allocate_and_write(vec![term], |n| store.new_term_refs(n)).unwrap();
    assert_eq!(refs.len(), 2);
    assert_eq!(refs.root(), 40);
    assert_eq!(refs.get(1).unwrap().handle(), 41);
    assert_eq!(
        steps,
        vec![
            WriteStep::Put { slot: 0, leaf: Leaf::Variable },
            WriteStep::Cons { name: "friend".to_string(), arity: 1, args: 0, target: 1 },
        ]
    );
}

#[test]
fn test_allocate_and_write_nested_layout() {
    let frame = Frame::new(|| 1);
    let store = Store::new(0);
    let term = Term::from(("f", vec![Term::from(1i32), Term::from(("g", vec![Term::from(true), Term::from(2i64)]))]));
    let (refs, steps) = frame.allocate_and_write(vec![term, Term::from("z")], |n| store.new_term_refs(n)).unwrap();
    assert_eq!(refs.len(), 6);
    // f's arguments are the roots in slots 0 and 1; g's arguments follow in
    // slots 2 and 3; f itself goes into slot 4, and "z" into slot 5.
    assert_eq!(
        steps,
        vec![
            WriteStep::Put { slot: 0, leaf: Leaf::I32(1) },
            WriteStep::Put { slot: 2, leaf: Leaf::Bool(true) },
            WriteStep::Put { slot: 3, leaf: Leaf::I64(2) },
            WriteStep::Cons { name: "g".to_string(), arity: 2, args: 2, target: 1 },
            WriteStep::Cons { name: "f".to_string(), arity: 2, args: 0, target: 4 },
            WriteStep::Put { slot: 5, leaf: Leaf::String("z".to_string()) },
        ]
    );
}

#[test]
fn test_allocate_and_write_nested_goal() {
    let frame = Frame::new(|| 1);
    let store = Store::new(0);
    let goal = Term::assert_term(Term::from(("friend", vec![Term::from("person")])));
    let (refs, steps) = frame.allocate_and_write(vec![goal], |n| store.new_term_refs(n)).unwrap();
    assert_eq!(refs.len(), 3);
    // assert/1 is called on slot 0, which holds friend(person).
    assert_eq!(
        steps,
        vec![
            WriteStep::Put { slot: 1, leaf: Leaf::String("person".to_string()) },
            WriteStep::Cons { name: "friend".to_string(), arity: 1, args: 1, target: 0 },
            WriteStep::Cons { name: "assert".to_string(), arity: 1, args: 0, target: 2 },
        ]
    );
}

#[test]
fn test_allocate_nothing_for_no_terms() {
    let frame = Frame::new(|| 1);
    let calls = Cell::new(0);
    let (refs, steps) = frame.allocate_and_write(vec![], |_n| {
        calls.set(calls.get() + 1);
        0
    }).unwrap();
    assert_eq!(refs.len(), 0);
    assert!(steps.is_empty());
    assert_eq!(calls.get(), 0);
}

#[test]
fn test_frame_nests_once() {
    let mut frame = Frame::new(|| 5);
    assert_eq!(frame.handle(), 5);
    let opened = Cell::new(0);
    let child = frame.nest(|| {
        opened.set(opened.get() + 1);
        6
    });
    let mut child = child.unwrap();
    assert_eq!(child.handle(), 6);
    assert!(frame.nest(|| {
        opened.set(opened.get() + 1);
        7
    }).is_none());
    assert_eq!(opened.get(), 1);
    assert!(frame.create_term_refs(2, |_| 100).is_none());
    assert!(frame.allocate_and_write(vec![Term::from(1i32)], |_| 100).is_none());
    let refs = child.create_term_refs(2, |_| 100).unwrap();
    assert_eq!(refs.len(), 2);
    assert!(child.nest(|| 8).is_some());
}

#[test]
fn test_term_write_plan() {
    let frame = Frame::new(|| 1);
    let term = Term::from(("p", vec![Term::from("a"), Term::from(("q", vec![Term::from(3i32)]))]));
    let steps = term.write(&frame);
    assert_eq!(
        steps,
        vec![
            WriteStep::Allocate { size: 2 },
            WriteStep::Put { slot: 1, leaf: Leaf::String("a".to_string()) },
            WriteStep::Allocate { size: 1 },
            WriteStep::Put { slot: 3, leaf: Leaf::I32(3) },
            WriteStep::Cons { name: "q".to_string(), arity: 1, args: 3, target: 2 },
            WriteStep::Cons { name: "p".to_string(), arity: 2, args: 1, target: 0 },
        ]
    );
    assert_eq!(Term::from(false).write(&frame), vec![WriteStep::Put { slot: 0, leaf: Leaf::Bool(false) }]);
}

#[test]
fn test_checked_sizes() {
    let flat = Term::from(("friend", vec![Term::from(())]));
    assert_eq!(checked_term_size(&flat), Some(2));
    let nested = Term::from(("f", vec![Term::from(1i32), Term::from(("g", vec![Term::from(true), Term::from(2i64)]))]));
    assert_eq!(checked_term_size(&nested), Some(5));
    assert_eq!(checked_terms_size(&vec![nested, Term::from("z")]), Some(6));
    assert_eq!(checked_terms_size(&vec![]), Some(0));
    assert_eq!(checked_term_size(&Term::from(("e", vec![]))), Some(1));
}

#[test]
fn test_checked_write_used() {
    let term = Term::from(("p", vec![Term::from("a"), Term::from(("q", vec![Term::from(3i32)]))]));
    assert_eq!(term.checked_write_used(), Some(3));
    assert_eq!(Term::from(1i32).checked_write_used(), Some(0));
    let empty = Term::from(("p", vec![Term::from(("e", vec![]))]));
    assert_eq!(empty.checked_write_used(), None);
}

#[test]
fn test_has_nested_frame() {
    let mut frame = Frame::new(|| 3);
    assert!(!frame.has_nested_frame());
    let child = frame.nest(|| 4).unwrap();
    assert!(frame.has_nested_frame());
    assert!(!child.has_nested_frame());
}

#[test]
fn test_frame_into_handle() {
    let mut frame = Frame::new(|| 9);
    let child = frame.nest(|| 10).unwrap();
    assert_eq!(child.into_handle(), 10);
    assert!(frame.has_nested_frame());
    assert_eq!(frame.into_handle(), 9);
}
