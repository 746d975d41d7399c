use stacklang::lang::{Arity, ArityCombineError, MultiIndex, MultiIndexIter, ResultantType, Type};

#[test]
fn two_pushes() {
    assert_eq!(
        Arity::literal(Type::Number).with_serial(&Arity::literal(Type::Number)),
        Arity::noop().with_push(Type::Number).with_push(Type::Number),
    );
}

#[test]
fn push_pop() {
    assert_eq!(
        Arity::literal(Type::Number).with_serial(&Arity::noop().with_pop(Type::Number)),
        Arity::noop(),
    );
}

#[test]
fn combine_number_binary() {
    assert_eq!(
        Arity::number_binary().with_serial(&Arity::number_binary()),
        Arity::noop()
            .with_pop(Type::Number)
            .with_pop(Type::Number)
            .with_pop(Type::Number)
            .with_push(Type::Number)
    );
}

#[test]
fn combine_number_unary() {
    assert_eq!(
        Arity::number_binary().with_serial(&Arity::number_unary()),
        Arity::noop().with_pop(Type::Number).with_pop(Type::Number).with_push(Type::Number)
    );
}

#[test]
fn number_reachover() {
    assert_eq!(
        Arity::literal(Type::Number).with_serial(&Arity::number_binary()),
        Arity::noop().with_pop(Type::Number).with_push(Type::Number)
    );
}

fn check_serial(first: &str, second: &str, expected: &str) {
    assert_eq!(
        Arity::serial(&Arity::parse(first).unwrap(), &Arity::parse(second).unwrap(),)
            .unwrap()
            .stringify(),
        expected,
    );
}

fn check_serial_err(first: &str, second: &str, expected: &ArityCombineError) {
    assert_eq!(
        &Arity::serial(&Arity::parse(first).unwrap(), &Arity::parse(second).unwrap(),)
            .unwrap_err(),
        expected,
    );
}

fn check_parallel(first: &str, second: &str, expected: &str) {
    assert_eq!(
        Arity::parallel(&Arity::parse(first).unwrap(), &Arity::parse(second).unwrap(),)
            .unwrap()
            .stringify(),
        expected,
    );
}

fn check_parallel_err(first: &str, second: &str, expected: &ArityCombineError) {
    assert_eq!(
        &Arity::parallel(&Arity::parse(first).unwrap(), &Arity::parse(second).unwrap(),)
            .unwrap_err(),
        expected,
    );
}

#[test]
fn parse() {
    assert_eq!(
        Arity::parse("n b s a u -").unwrap(),
        Arity::from_parts(
            vec![Type::Unknown, Type::Address, Type::String, Type::Bool, Type::Number,],
            vec![]
        )
    );

    assert_eq!(Arity::parse("n b s a u -").unwrap().stringify(), "n b s a u -");

    assert_eq!(Arity::parse("u u - 0|1").unwrap(), Arity::generic_1(2, MultiIndex::pair(0, 1)));

    {
        let source = "-";
        assert_eq!(Arity::parse(source).unwrap().stringify(), source);
    }

    {
        let source = "0 - 0 0";
        assert_eq!(Arity::parse(source).unwrap().stringify(), source);
    }

    {
        let source = "0 - 0 0, a:n";
        assert_eq!(Arity::parse(source).unwrap().stringify(), source);
    }

    {
        let source = "0 -, a:0";
        assert_eq!(Arity::parse(source).unwrap().stringify(), source);
    }

    {
        let source = "- u, >a";
        assert_eq!(Arity::parse(source).unwrap().stringify(), source);
    }

    {
        let source = "0 -, a:0?";
        assert_eq!(Arity::parse(source).unwrap().stringify(), source);
    }

    {
        let source = "- u, a:u?";
        assert_eq!(Arity::parse(source).unwrap().stringify(), source);
    }
}

#[test]
fn serial() {
    check_serial("- n", "- n", "- n n");
    check_serial("- n", "n -", "-");
    check_serial("n n - n", "n n - n", "n n n - n");
    check_serial("n n - n", "n - n", "n n - n");
    check_serial("- n", "n n - n", "n - n");
    check_serial("n - s", "s - n", "n - n");
    check_serial("n - u", "u - n", "n - n");
    check_serial("u - 0", "n - s", "n - s");
    check_serial("u u - 0|1", "n - s", "n n - s");
    check_serial("u u - 0|1", "u - u", "u u - u");
    check_serial("- n s", "u u - 0|1", "- u");
}

#[test]
fn serial_error_1() {
    check_serial_err("n - s", "n - s", &ArityCombineError::IncompatibleTypes);
}

#[test]
fn serial_error_2() {
    check_serial_err("n - b s", "n s - s", &ArityCombineError::IncompatibleTypes);
}

#[test]
fn serial_error_3() {
    check_serial_err("u u - 0|1 0|1", "n s - s", &ArityCombineError::IncompatibleTypes);
}

#[test]
fn parallel() {
    check_parallel("- n", "- s", "- u");
}

#[test]
fn parallel_error_1() {
    check_parallel_err("n -", "s -", &ArityCombineError::IncompatibleTypes);
}

#[test]
fn parallel_2() {
    check_parallel("n - s", "-", "n - u");
}

#[test]
fn parallel_3() {
    check_parallel("u u - 0|1", "n s - u", "n s - u");
}

#[test]
fn parallel_4() {
    check_parallel("-", "n s - n n", "n s - n u");
}

#[test]
fn parallel_5() {
    check_parallel("u - 0", "n s - n n", "n s - n u");
}

#[test]
fn parallel_6() {
    check_parallel("u u - 1 0", "n s - n n", "n s - n u");
}

#[test]
fn parallel_7() {
    check_parallel("u u - 0 1", "n s - n n", "n s - u n");
}

#[test]
fn parallel_differing_sizes() {
    check_parallel_err("- n", "- n n", &ArityCombineError::DifferingSizes);
    check_parallel_err("n -", "- n", &ArityCombineError::DifferingSizes);
}

#[test]
fn serial_with_noop_is_identity() {
    for text in ["-", "n n - n", "1 0 - 0 1", "0 - 0 0", "u u - 0|1", "s n n - s", "- u, >a"] {
        let a = Arity::parse(text).unwrap();
        assert_eq!(Arity::serial(&Arity::noop(), &a).unwrap(), a, "{text}");
        assert_eq!(Arity::serial(&a, &Arity::noop()).unwrap(), a, "{text}");
    }
}

#[test]
fn parallel_laws_on_examples() {
    let texts = ["-", "n n - n", "1 0 - 0 1", "0 - 0 0", "u u - 0|1", "s n n - s", "- n", "u - n"];
    for x in texts {
        let a = Arity::parse(x).unwrap();
        assert_eq!(Arity::parallel(&a, &a).unwrap(), a, "{x}");
        for y in texts {
            let b = Arity::parse(y).unwrap();
            assert_eq!(Arity::parallel(&a, &b), Arity::parallel(&b, &a), "{x} / {y}");
        }
    }
}

#[test]
fn serial_is_associative_on_examples() {
    let texts = ["-", "- n", "n -", "n n - n", "s - n", "- s b", "u -", "u - u", "b n - s s"];
    for x in texts {
        for y in texts {
            for z in texts {
                let (a, b, c) =
                    (Arity::parse(x).unwrap(), Arity::parse(y).unwrap(), Arity::parse(z).unwrap());
                let left = Arity::serial(&a, &b).and_then(|ab| Arity::serial(&ab, &c));
                let right = Arity::serial(&b, &c).and_then(|bc| Arity::serial(&a, &bc));
                assert_eq!(left, right, "{x} ; {y} ; {z}");
            }
        }
    }
}

#[test]
fn multi_index_is_a_sorted_set() {
    let mut m = MultiIndex::single(5);
    m.insert(2);
    m.insert(9);
    m.insert(5);
    m.insert(0);
    assert_eq!(m.iter(), vec![0, 2, 5, 9]);
    assert_eq!(m.iter_rest(), vec![2, 5, 9]);
    assert!(m.contains(9));
    assert!(!m.contains(3));
    assert_eq!(MultiIndex::pair(4, 1).iter(), vec![1, 4]);
    assert_eq!(MultiIndex::pair(3, 3).iter(), vec![3]);
    assert_eq!(MultiIndex::pair(1, 7).union(&m).iter(), vec![0, 1, 2, 5, 7, 9]);
    let mut it = MultiIndexIter::new(Some(&m));
    assert_eq!(it.next(), Some(0));
    assert_eq!(it.next(), Some(2));
    assert_eq!(it.next(), Some(5));
    assert_eq!(it.next(), Some(9));
    assert_eq!(it.next(), None);
    assert_eq!(MultiIndexIter::new(None).next(), None);
}

#[test]
fn resultant_types() {
    let n = ResultantType::Normal(Type::Number);
    let s = ResultantType::Normal(Type::String);
    let d = ResultantType::Dependent(MultiIndex::pair(0, 2));
    let e = ResultantType::Dependent(MultiIndex::single(1));
    assert_eq!(n.union(&s), Ok(ResultantType::Normal(Type::Unknown)));
    assert_eq!(n.union(&d), Ok(ResultantType::Normal(Type::Number)));
    assert_eq!(d.union(&n), Ok(ResultantType::Normal(Type::Number)));
    assert_eq!(
        d.union(&e),
        Ok(ResultantType::Dependent({
            let mut m = MultiIndex::pair(0, 1);
            m.insert(2);
            m
        }))
    );
    assert!(d.references(2));
    assert!(!d.references(1));
    assert!(!n.references(0));
    assert_eq!(d.stringify(), "0|2");
    assert_eq!(n.stringify(), "n");
    assert_eq!(ResultantType::Recall("x".into()).stringify(), "x");
}

#[test]
fn sizes_and_builders() {
    assert_eq!(Arity::noop().size(), (0, 0));
    assert_eq!(Arity::number_binary().size(), (2, 1));
    assert_eq!(Arity::in_out(3, 2).stringify(), "u u u - u u");
    assert_eq!(Arity::unary(Type::String, Type::Number).stringify(), "s - n");
    assert_eq!(Arity::binary(Type::String, Type::Bool, Type::Number).stringify(), "b s - n");
    assert_eq!(Arity::push_two(Type::String, Type::Bool).stringify(), "- s b");
    assert_eq!(
        Arity::generic_2(2, MultiIndex::single(0), MultiIndex::single(1)).stringify(),
        "1 0 - 0 1"
    );
    assert_eq!(
        Arity::generic_3(3, MultiIndex::single(1), MultiIndex::single(0), MultiIndex::single(2))
            .stringify(),
        "2 1 0 - 1 0 2"
    );
    assert_eq!(Arity::capture("x").stringify(), "0 -, x:0");
    assert_eq!(Arity::recall("x").stringify(), "- x, >x");
    let mut a = Arity::noop();
    a.extend_pops();
    assert_eq!(a.stringify(), "0 - 0");
    assert_eq!(Arity::parse("0 - 0 0, >a:n?").unwrap().stringify(), "0 - 0 0, >a:n?");
    assert!(Arity::parse("n n").is_none());
    assert!(Arity::parse("n - 0").is_none());
    assert!(Arity::parse("u - 3").is_none());
}

#[test]
fn captures_flow_through_serial_and_parallel() {
    let capture = Arity::capture("x");
    let recall = Arity::recall("x");
    let both = Arity::serial(&capture, &recall).unwrap();
    assert_eq!(both.stringify(), "0 - 0, x:0");
    let early = Arity::serial(&recall, &capture).unwrap();
    assert_eq!(early.stringify(), "-, >x:x");
    let either = Arity::parallel(&capture, &Arity::parse("u -").unwrap()).unwrap();
    assert_eq!(either.stringify(), "0 -, x:0?");
}

#[test]
fn parallel_is_associative_on_effects_of_one_size() {
    let texts = ["n - n", "u - n", "s - s", "u - u", "n - u", "s - n", "b - b"];
    for x in texts {
        for y in texts {
            for z in texts {
                let (a, b, c) =
                    (Arity::parse(x).unwrap(), Arity::parse(y).unwrap(), Arity::parse(z).unwrap());
                let left = Arity::parallel(&a, &b).and_then(|ab| Arity::parallel(&ab, &c));
                let right = Arity::parallel(&b, &c).and_then(|bc| Arity::parallel(&a, &bc));
                assert_eq!(left, right, "{x} | {y} | {z}");
            }
        }
    }
}

#[test]
fn grouping_matters_when_sizes_differ() {
    let (a, b, c) = (
        Arity::parse("-").unwrap(),
        Arity::parse("u - n").unwrap(),
        Arity::parse("s - n").unwrap(),
    );
    let left = Arity::parallel(&Arity::parallel(&a, &b).unwrap(), &c).unwrap();
    let right = Arity::parallel(&a, &Arity::parallel(&b, &c).unwrap()).unwrap();
    assert_eq!(left.stringify(), "s - n");
    assert_eq!(right.stringify(), "s - u");
    let (a, b, c) = (
        Arity::parse("- n").unwrap(),
        Arity::parse("u u - 0|1").unwrap(),
        Arity::parse("n -").unwrap(),
    );
    let left = Arity::serial(&Arity::serial(&a, &b).unwrap(), &c).unwrap();
    let right = Arity::serial(&a, &Arity::serial(&b, &c).unwrap()).unwrap();
    assert_eq!(left.stringify(), "u -");
    assert_eq!(right.stringify(), "n -");
}

#[test]
fn equal_effects_are_the_same() {
    let a = Arity::parse("1 0 - 0|1, >x:n?").unwrap();
    assert!(a.same(&a.duplicate()));
    assert!(!a.same(&Arity::parse("1 0 - 0|1, >x:n").unwrap()));
    assert!(!a.same(&Arity::parse("1 0 - 0|1").unwrap()));
    assert!(!a.same(&Arity::parse("1 0 - 0, >x:n?").unwrap()));
    assert!(!a.same(&Arity::parse("u 0 - 0, >x:n?").unwrap()));
}

#[test]
fn serial_with_noop_keeps_a_dependency_on_a_known_slot() {
    let a = Arity::from_parts(
        vec![Type::Number],
        vec![ResultantType::Dependent(MultiIndex::single(0))],
    );
    assert_eq!(Arity::serial(&Arity::noop(), &a).unwrap(), a);
    assert_eq!(Arity::serial(&a, &Arity::noop()).unwrap(), a);
    let b = Arity::from_parts(
        vec![Type::String, Type::Unknown],
        vec![
            ResultantType::Dependent(MultiIndex::pair(0, 1)),
            ResultantType::Dependent(MultiIndex::single(1)),
        ],
    );
    assert_eq!(Arity::serial(&Arity::noop(), &b).unwrap(), b);
    assert_eq!(Arity::serial(&b, &Arity::noop()).unwrap(), b);
}

#[test]
fn the_text_of_an_effect_reads_back() {
    for text in [
        "-",
        "n n - n",
        "1 0 - 0 1",
        "s 1 0 - 0|1 n",
        "u 0 - 0 value",
        "10 u u u u u u u u u 0 - 0|10",
        "0 -, name:0",
        "-, >wanted",
        "n - n, >wanted given:n maybe:s? kept:held",
    ] {
        let a = Arity::parse(text).unwrap();
        assert_eq!(a.stringify(), text);
        assert_eq!(Arity::parse(&a.stringify()).unwrap(), a, "{text}");
    }
}
