//! The five-point type lattice that stack-effect inference works over.
use vstd::prelude::*;

verus! {

/// The static type of a stack slot. `Unknown` is the top of the lattice.
#[derive(Copy, Clone, PartialEq, Eq, Debug, Structural)]
pub enum Type {
    Bool,
    Number,
    String,
    Address,
    Unknown,
}

/// `a` may be used where `b` is expected.
pub open spec fn assignable(a: Type, b: Type) -> bool {
    b == Type::Unknown || a == b
}

/// The join of two types: the less specific of the two, `Unknown` when unrelated.
pub open spec fn join(a: Type, b: Type) -> Type {
    if a == b {
        a
    } else {
        Type::Unknown
    }
}

/// The meet of two types: the more specific of the two, nothing when unrelated.
pub open spec fn meet(a: Type, b: Type) -> Option<Type> {
    if a == b {
        Some(a)
    } else if a == Type::Unknown {
        Some(b)
    } else if b == Type::Unknown {
        Some(a)
    } else {
        None
    }
}

/// The type a code letter stands for.
pub open spec fn code_type(c: char) -> Option<Type> {
    if c == 'b' {
        Some(Type::Bool)
    } else if c == 'n' {
        Some(Type::Number)
    } else if c == 's' {
        Some(Type::String)
    } else if c == 'u' {
        Some(Type::Unknown)
    } else if c == 'a' {
        Some(Type::Address)
    } else {
        None
    }
}

/// The one-letter code a type is written with.
pub open spec fn type_code(t: Type) -> char {
    match t {
        Type::Bool => 'b',
        Type::Number => 'n',
        Type::String => 's',
        Type::Unknown => 'u',
        Type::Address => 'a',
    }
}

impl Type {
    /// Whether a slot of this type may be used where `other` is expected.
    pub fn assignable_to(&self, other: &Type) -> (r: bool)
        ensures
            r == assignable(*self, *other),
    {
        *other == Type::Unknown || *self == *other
    }

    /// The one-letter code of the type.
    pub fn stringify(&self) -> (r: &'static str)
        ensures
            r@ == seq![type_code(*self)],
    {
        proof {
            reveal_strlit("b");
            reveal_strlit("n");
            reveal_strlit("s");
            reveal_strlit("u");
            reveal_strlit("a");
        }
        let r = match self {
            Type::Bool => "b",
            Type::Number => "n",
            Type::String => "s",
            Type::Unknown => "u",
            Type::Address => "a",
        };
        assert(r@ =~= seq![type_code(*self)]);
        r
    }

    /// The code letter itself.
    pub fn code(&self) -> (r: char)
        ensures
            r == type_code(*self),
    {
        match self {
            Type::Bool => 'b',
            Type::Number => 'n',
            Type::String => 's',
            Type::Unknown => 'u',
            Type::Address => 'a',
        }
    }

    /// Reads a code letter back.
    pub fn from_code(c: char) -> (r: Option<Type>)
        ensures
            r == code_type(c),
            match r {
                Some(t) => type_code(t) == c,
                None => forall|t: Type| type_code(t) != c,
            },
    {
        if c == 'b' {
            Some(Type::Bool)
        } else if c == 'n' {
            Some(Type::Number)
        } else if c == 's' {
            Some(Type::String)
        } else if c == 'u' {
            Some(Type::Unknown)
        } else if c == 'a' {
            Some(Type::Address)
        } else {
            None
        }
    }

    /// The join of two types.
    pub fn union(self, other: Type) -> (r: Type)
        ensures
            r == join(self, other),
    {
        if self.assignable_to(&other) {
            other
        } else if other.assignable_to(&self) {
            self
        } else {
            Type::Unknown
        }
    }

    /// The meet of two types, if they have one.
    pub fn inter(self, other: Type) -> (r: Option<Type>)
        ensures
            r == meet(self, other),
    {
        if self == other {
            Some(self)
        } else if self == Type::Unknown {
            Some(other)
        } else if other == Type::Unknown {
            Some(self)
        } else {
            None
        }
    }
}

/// The join is idempotent, commutative and associative, and `Unknown` absorbs.
pub proof fn join_is_a_semilattice(a: Type, b: Type, c: Type)
    ensures
        join(a, a) == a,
        join(a, b) == join(b, a),
        join(join(a, b), c) == join(a, join(b, c)),
        join(a, Type::Unknown) == Type::Unknown,
{
}

/// The meet is idempotent and commutative, `Unknown` is its unit, and it is
/// associative wherever both groupings are defined.
pub proof fn meet_is_a_partial_semilattice(a: Type, b: Type, c: Type)
    ensures
        meet(a, a) == Some(a),
        meet(a, b) == meet(b, a),
        meet(a, Type::Unknown) == Some(a),
        meet(a, b) is Some && meet(b, c) is Some && meet(meet(a, b)->0, c) is Some && meet(
            a,
            meet(b, c)->0,
        ) is Some ==> meet(meet(a, b)->0, c) == meet(a, meet(b, c)->0),
{
}

/// A type is assignable to another exactly when the other is their join,
/// and exactly when it is itself their meet.
pub proof fn assignable_is_the_lattice_order(a: Type, b: Type)
    ensures
        assignable(a, b) <==> join(a, b) == b,
        assignable(a, b) <==> meet(a, b) == Some(a),
{
}

} // verus!
