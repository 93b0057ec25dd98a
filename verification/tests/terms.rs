use swi_prolog::{Data, Term};

fn compound(term: &Term) -> (&str, &Vec<Term>) {
    match term {
        Term::Predicate(name, args) => (name.as_str(), args),
        other => panic!("not a compound: {:?}", other),
    }
}

#[test]
fn test_assert_retract_head_body() {
    let a = Term::assert_term(Term::from(1i32));
    let (name, args) = compound(&a);
    assert_eq!(name, "assert");
    assert_eq!(args.len(), 1);
    assert!(matches!(args[0], Term::I32(1)));

    let r = Term::retract(Term::from(true));
    let (name, args) = compound(&r);
    assert_eq!(name, "retract");
    assert!(matches!(args[0], Term::Bool(true)));

    let c = Term::head_body(Term::from("head"), Term::from(()));
    let (name, args) = compound(&c);
    assert_eq!(name, ":-");
    assert_eq!(args.len(), 2);
    assert!(matches!(&args[0], Term::String(s) if s == "head"));
    assert!(matches!(args[1], Term::Variable));
}

#[test]
fn test_term_from() {
    assert!(matches!(Term::from("x".to_string()), Term::String(s) if s == "x"));
    assert!(matches!(Term::from("y"), Term::String(s) if s == "y"));
    assert!(matches!(Term::from(false), Term::Bool(false)));
    assert!(matches!(Term::from(-5i32), Term::I32(-5)));
    assert!(matches!(Term::from(1i64 << 40), Term::I64(v) if v == 1i64 << 40));
    assert!(matches!(Term::from(()), Term::Variable));
    let p = Term::from(("friend", vec![Term::from(())]));
    let (name, args) = compound(&p);
    assert_eq!(name, "friend");
    assert!(matches!(args[0], Term::Variable));
    let q = Term::from(("pair".to_string(), vec![Term::from(1i32), Term::from(2i32)]));
    let (name, args) = compound(&q);
    assert_eq!(name, "pair");
    assert_eq!(args.len(), 2);
}

#[test]
fn test_term_clone() {
    let t = Term::from(("f", vec![Term::from(1i32), Term::from(("g", vec![Term::from("a")]))]));
    let c = t.clone();
    let (name, args) = compound(&c);
    assert_eq!(name, "f");
    assert_eq!(args.len(), 2);
    assert!(matches!(args[0], Term::I32(1)));
    let (inner, inner_args) = compound(&args[1]);
    assert_eq!(inner, "g");
    assert!(matches!(&inner_args[0], Term::String(s) if s == "a"));
    assert!(matches!(Term::from(7i64).clone(), Term::I64(7)));
}

#[test]
fn test_data_from() {
    assert_eq!(Data::from("data1"), Data::String("data1".to_string()));
    assert_eq!(Data::from("s".to_string()), Data::String("s".to_string()));
    assert_eq!(Data::from(true), Data::Bool(true));
    assert_eq!(Data::from(3u32), Data::U32(3));
    assert_eq!(Data::from(4u64), Data::U64(4));
    assert_eq!(Data::from(-2i32), Data::I32(-2));
    assert_eq!(Data::from(-9i64), Data::I64(-9));
    assert_ne!(Data::from(1i32), Data::from(1i64));
}

#[test]
fn test_term_clone_copies_arguments() {
    let t = Term::from(("f", vec![Term::from("a"), Term::from(2i64), Term::from(("g", vec![Term::from(false), Term::from(())]))]));
    let c = t.clone();
    let (_, args) = compound(&c);
    assert!(matches!(&args[0], Term::String(s) if s == "a"));
    assert!(matches!(args[1], Term::I64(2)));
    let (g, g_args) = compound(&args[2]);
    assert_eq!(g, "g");
    assert!(matches!(g_args[0], Term::Bool(false)));
    assert!(matches!(g_args[1], Term::Variable));
}

#[test]
fn test_data_clone() {
    let d = Data::from("x");
    assert_eq!(d.clone(), d);
}
