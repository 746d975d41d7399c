use stacklang::lang::Type;

#[test]
fn assignable_to() {
    assert!(Type::Bool.assignable_to(&Type::Bool));
    assert!(!Type::Bool.assignable_to(&Type::Number));
    assert!(!Type::Bool.assignable_to(&Type::String));
    assert!(Type::Bool.assignable_to(&Type::Unknown));

    assert!(!Type::Unknown.assignable_to(&Type::Bool));
    assert!(!Type::Unknown.assignable_to(&Type::Number));
    assert!(!Type::Unknown.assignable_to(&Type::String));
    assert!(Type::Unknown.assignable_to(&Type::Unknown));
}

#[test]
fn union() {
    assert_eq!(Type::Bool.union(Type::Bool), Type::Bool);
    assert_eq!(Type::Number.union(Type::Number), Type::Number);
    assert_eq!(Type::String.union(Type::String), Type::String);
    assert_eq!(Type::Unknown.union(Type::Unknown), Type::Unknown);

    assert_eq!(Type::Bool.union(Type::Unknown), Type::Unknown);
    assert_eq!(Type::Bool.union(Type::Number), Type::Unknown);
    assert_eq!(Type::Unknown.union(Type::String), Type::Unknown);
}

#[test]
fn inter() {
    assert_eq!(Type::Bool.inter(Type::Bool), Some(Type::Bool));
    assert_eq!(Type::Number.inter(Type::Number), Some(Type::Number));
    assert_eq!(Type::String.inter(Type::String), Some(Type::String));
    assert_eq!(Type::Unknown.inter(Type::Unknown), Some(Type::Unknown));

    assert_eq!(Type::Bool.inter(Type::Unknown), Some(Type::Bool));
    assert_eq!(Type::Bool.inter(Type::Number), None);
    assert_eq!(Type::Unknown.inter(Type::String), Some(Type::String));
}

#[test]
fn type_codes() {
    let all = [Type::Bool, Type::Number, Type::String, Type::Address, Type::Unknown];
    let codes = ["b", "n", "s", "a", "u"];
    for (t, c) in all.iter().zip(codes.iter()) {
        assert_eq!(t.stringify(), *c);
        assert_eq!(Type::from_code(t.code()), Some(*t));
    }
    assert_eq!(Type::from_code('x'), None);
}

#[test]
fn lattice_on_all_pairs() {
    let all = [Type::Bool, Type::Number, Type::String, Type::Address, Type::Unknown];
    for a in all {
        assert_eq!(a.union(a), a);
        assert_eq!(a.inter(a), Some(a));
        for b in all {
            assert_eq!(a.union(b), b.union(a));
            assert_eq!(a.inter(b), b.inter(a));
            assert_eq!(a.assignable_to(&b), a.union(b) == b);
            assert_eq!(a.assignable_to(&b), a.inter(b) == Some(a));
        }
    }
}
