//! The built-in operations: their names, their stack effects and the names the code
//! generators call them by.
use vstd::prelude::*;
use vstd::utf8::is_ascii_chars_encode_utf8;
use vstd::string::StringSliceAdditionalSpecFns;
use crate::analyze::AnalysisError;
use crate::lang::arity::{Arity, ArityModel, Resultant};
use crate::lang::arity_text::{plain, unknowns};
use crate::lang::multi_index::MultiIndex;
use crate::lang::types::Type;
use crate::text::chars_of;

verus! {

/// A built-in operation.
#[derive(Copy, Clone, PartialEq, Eq, Debug, Structural)]
pub enum Intrinsic {
    Plus,
    Minus,
    Times,
    Divide,
    Modulo,
    Pow,
    Or,
    And,
    Swap,
    Dup,
    Over,
    Rot,
    Drop,
    Print,
    Readline,
    Substring,
    ToChar,
    FromChar,
    Index,
    Join,
    Length,
    Assert,
    Eval,
    Greater,
    Less,
    Not,
    Decrement,
    Increment,
    Equals,
}

/// The name a program calls the operation by.
pub open spec fn intrinsic_name(i: Intrinsic) -> Seq<char> {
    match i {
        Intrinsic::Plus => "+"@,
        Intrinsic::Minus => "-"@,
        Intrinsic::Times => "*"@,
        Intrinsic::Divide => "/"@,
        Intrinsic::Modulo => "%"@,
        Intrinsic::Pow => "**"@,
        Intrinsic::Or => "||"@,
        Intrinsic::And => "&&"@,
        Intrinsic::Swap => "swap"@,
        Intrinsic::Dup => "dup"@,
        Intrinsic::Over => "over"@,
        Intrinsic::Rot => "rot"@,
        Intrinsic::Drop => "drop"@,
        Intrinsic::Print => "print"@,
        Intrinsic::Readline => "readline"@,
        Intrinsic::Substring => "substring"@,
        Intrinsic::ToChar => "to_char"@,
        Intrinsic::FromChar => "from_char"@,
        Intrinsic::Index => "index"@,
        Intrinsic::Join => "join"@,
        Intrinsic::Length => "length"@,
        Intrinsic::Assert => "assert"@,
        Intrinsic::Eval => "eval"@,
        Intrinsic::Greater => ">"@,
        Intrinsic::Less => "<"@,
        Intrinsic::Not => "!"@,
        Intrinsic::Decrement => "--"@,
        Intrinsic::Increment => "++"@,
        Intrinsic::Equals => "=="@,
    }
}

/// The name generated code calls the operation by.
pub open spec fn intrinsic_alias(i: Intrinsic) -> Seq<char> {
    match i {
        Intrinsic::Plus => "plus"@,
        Intrinsic::Minus => "minus"@,
        Intrinsic::Times => "times"@,
        Intrinsic::Divide => "divide"@,
        Intrinsic::Modulo => "modulo"@,
        Intrinsic::Pow => "pow_i"@,
        Intrinsic::Or => "or_i"@,
        Intrinsic::And => "and_i"@,
        Intrinsic::Swap => "swap"@,
        Intrinsic::Dup => "dup"@,
        Intrinsic::Over => "over"@,
        Intrinsic::Rot => "rot"@,
        Intrinsic::Drop => "drop"@,
        Intrinsic::Print => "print"@,
        Intrinsic::Readline => "readline"@,
        Intrinsic::Substring => "substring"@,
        Intrinsic::ToChar => "to_char"@,
        Intrinsic::FromChar => "from_char"@,
        Intrinsic::Index => "string_index"@,
        Intrinsic::Join => "join"@,
        Intrinsic::Length => "length"@,
        Intrinsic::Assert => "assert"@,
        Intrinsic::Eval => "eval_i"@,
        Intrinsic::Greater => "greater"@,
        Intrinsic::Less => "less"@,
        Intrinsic::Not => "not"@,
        Intrinsic::Decrement => "decrement"@,
        Intrinsic::Increment => "increment"@,
        Intrinsic::Equals => "equals"@,
    }
}

/// The operation a name stands for, if it stands for one.
pub open spec fn intrinsic_named(name: Seq<char>) -> Option<Intrinsic> {
    if name == "+"@ {
        Some(Intrinsic::Plus)
    } else if name == "-"@ {
        Some(Intrinsic::Minus)
    } else if name == "*"@ {
        Some(Intrinsic::Times)
    } else if name == "/"@ {
        Some(Intrinsic::Divide)
    } else if name == "%"@ {
        Some(Intrinsic::Modulo)
    } else if name == "**"@ {
        Some(Intrinsic::Pow)
    } else if name == "||"@ {
        Some(Intrinsic::Or)
    } else if name == "&&"@ {
        Some(Intrinsic::And)
    } else if name == "swap"@ {
        Some(Intrinsic::Swap)
    } else if name == "dup"@ {
        Some(Intrinsic::Dup)
    } else if name == "over"@ {
        Some(Intrinsic::Over)
    } else if name == "rot"@ {
        Some(Intrinsic::Rot)
    } else if name == "drop"@ {
        Some(Intrinsic::Drop)
    } else if name == "print"@ {
        Some(Intrinsic::Print)
    } else if name == "readline"@ {
        Some(Intrinsic::Readline)
    } else if name == "substring"@ {
        Some(Intrinsic::Substring)
    } else if name == "to_char"@ {
        Some(Intrinsic::ToChar)
    } else if name == "from_char"@ {
        Some(Intrinsic::FromChar)
    } else if name == "index"@ {
        Some(Intrinsic::Index)
    } else if name == "join"@ {
        Some(Intrinsic::Join)
    } else if name == "length"@ {
        Some(Intrinsic::Length)
    } else if name == "assert"@ {
        Some(Intrinsic::Assert)
    } else if name == "eval"@ {
        Some(Intrinsic::Eval)
    } else if name == ">"@ {
        Some(Intrinsic::Greater)
    } else if name == "<"@ {
        Some(Intrinsic::Less)
    } else if name == "!"@ {
        Some(Intrinsic::Not)
    } else if name == "--"@ {
        Some(Intrinsic::Decrement)
    } else if name == "++"@ {
        Some(Intrinsic::Increment)
    } else if name == "=="@ {
        Some(Intrinsic::Equals)
    } else {
        None
    }
}

/// The stack effect of the operation as written in the table. For `eval` the table
/// holds the empty effect; what it does depends on the function it is handed.
pub open spec fn intrinsic_arity(i: Intrinsic) -> ArityModel {
    match i {
        Intrinsic::Plus => plain(seq![Type::Number, Type::Number], seq![Resultant::Normal(Type::Number)]),
        Intrinsic::Minus => plain(seq![Type::Number, Type::Number], seq![Resultant::Normal(Type::Number)]),
        Intrinsic::Times => plain(seq![Type::Number, Type::Number], seq![Resultant::Normal(Type::Number)]),
        Intrinsic::Divide => plain(seq![Type::Number, Type::Number], seq![Resultant::Normal(Type::Number)]),
        Intrinsic::Modulo => plain(seq![Type::Number, Type::Number], seq![Resultant::Normal(Type::Number)]),
        Intrinsic::Pow => plain(seq![Type::Number, Type::Number], seq![Resultant::Normal(Type::Number)]),
        Intrinsic::Or => plain(unknowns(2), seq![Resultant::Dependent(MultiIndex::unit(0).with(1))]),
        Intrinsic::And => plain(unknowns(2), seq![Resultant::Dependent(MultiIndex::unit(0).with(1))]),
        Intrinsic::Swap => plain(unknowns(2), seq![Resultant::Dependent(MultiIndex::unit(0)), Resultant::Dependent(MultiIndex::unit(1))]),
        Intrinsic::Dup => plain(unknowns(1), seq![Resultant::Dependent(MultiIndex::unit(0)), Resultant::Dependent(MultiIndex::unit(0))]),
        Intrinsic::Over => plain(unknowns(2), seq![Resultant::Dependent(MultiIndex::unit(1)), Resultant::Dependent(MultiIndex::unit(0)), Resultant::Dependent(MultiIndex::unit(1))]),
        Intrinsic::Rot => plain(unknowns(3), seq![Resultant::Dependent(MultiIndex::unit(1)), Resultant::Dependent(MultiIndex::unit(0)), Resultant::Dependent(MultiIndex::unit(2))]),
        Intrinsic::Drop => plain(seq![Type::Unknown], Seq::empty()),
        Intrinsic::Print => plain(seq![Type::Unknown], Seq::empty()),
        Intrinsic::Readline => plain(Seq::empty(), seq![Resultant::Normal(Type::String), Resultant::Normal(Type::Bool)]),
        Intrinsic::Substring => plain(seq![Type::Number, Type::Number, Type::String], seq![Resultant::Normal(Type::String)]),
        Intrinsic::ToChar => plain(seq![Type::String], seq![Resultant::Normal(Type::Number)]),
        Intrinsic::FromChar => plain(seq![Type::Number], seq![Resultant::Normal(Type::String)]),
        Intrinsic::Index => plain(seq![Type::String, Type::String], seq![Resultant::Normal(Type::Number)]),
        Intrinsic::Join => plain(seq![Type::Unknown, Type::Unknown], seq![Resultant::Normal(Type::String)]),
        Intrinsic::Length => plain(seq![Type::String], seq![Resultant::Normal(Type::Number)]),
        Intrinsic::Assert => plain(seq![Type::String, Type::Unknown], Seq::empty()),
        Intrinsic::Eval => ArityModel::noop(),
        Intrinsic::Greater => plain(seq![Type::Number, Type::Number], seq![Resultant::Normal(Type::Bool)]),
        Intrinsic::Less => plain(seq![Type::Number, Type::Number], seq![Resultant::Normal(Type::Bool)]),
        Intrinsic::Not => plain(seq![Type::Unknown], seq![Resultant::Normal(Type::Bool)]),
        Intrinsic::Decrement => plain(seq![Type::Number], seq![Resultant::Normal(Type::Number)]),
        Intrinsic::Increment => plain(seq![Type::Number], seq![Resultant::Normal(Type::Number)]),
        Intrinsic::Equals => plain(seq![Type::Unknown, Type::Unknown], seq![Resultant::Normal(Type::Bool)]),
    }
}

fn take_one() -> (x: Arity)
    ensures
        x@ == plain(seq![Type::Unknown], Seq::empty()),
        x@.wf(),
{
    let mut pops: Vec<Type> = Vec::new();
    pops.push(Type::Unknown);
    let x = Arity::from_parts(pops, Vec::new());
    assert(x@.pops =~= seq![Type::Unknown]);
    assert(x@.pushes =~= Seq::empty());
    x
}

fn take_two(a: Type, b: Type) -> (x: Arity)
    ensures
        x@ == plain(seq![a, b], Seq::empty()),
        x@.wf(),
{
    let mut pops: Vec<Type> = Vec::new();
    pops.push(a);
    pops.push(b);
    let x = Arity::from_parts(pops, Vec::new());
    assert(x@.pops =~= seq![a, b]);
    assert(x@.pushes =~= Seq::empty());
    x
}

impl Intrinsic {
    /// The name a program calls the operation by.
    pub fn name(&self) -> (r: &'static str)
        ensures
            r@ == intrinsic_name(*self),
    {
        match self {
            Intrinsic::Plus => "+",
            Intrinsic::Minus => "-",
            Intrinsic::Times => "*",
            Intrinsic::Divide => "/",
            Intrinsic::Modulo => "%",
            Intrinsic::Pow => "**",
            Intrinsic::Or => "||",
            Intrinsic::And => "&&",
            Intrinsic::Swap => "swap",
            Intrinsic::Dup => "dup",
            Intrinsic::Over => "over",
            Intrinsic::Rot => "rot",
            Intrinsic::Drop => "drop",
            Intrinsic::Print => "print",
            Intrinsic::Readline => "readline",
            Intrinsic::Substring => "substring",
            Intrinsic::ToChar => "to_char",
            Intrinsic::FromChar => "from_char",
            Intrinsic::Index => "index",
            Intrinsic::Join => "join",
            Intrinsic::Length => "length",
            Intrinsic::Assert => "assert",
            Intrinsic::Eval => "eval",
            Intrinsic::Greater => ">",
            Intrinsic::Less => "<",
            Intrinsic::Not => "!",
            Intrinsic::Decrement => "--",
            Intrinsic::Increment => "++",
            Intrinsic::Equals => "==",
        }
    }

    /// The name generated code calls the operation by.
    pub fn codegen_name(&self) -> (r: &'static str)
        ensures
            r@ == intrinsic_alias(*self),
    {
        match self {
            Intrinsic::Plus => "plus",
            Intrinsic::Minus => "minus",
            Intrinsic::Times => "times",
            Intrinsic::Divide => "divide",
            Intrinsic::Modulo => "modulo",
            Intrinsic::Pow => "pow_i",
            Intrinsic::Or => "or_i",
            Intrinsic::And => "and_i",
            Intrinsic::Swap => "swap",
            Intrinsic::Dup => "dup",
            Intrinsic::Over => "over",
            Intrinsic::Rot => "rot",
            Intrinsic::Drop => "drop",
            Intrinsic::Print => "print",
            Intrinsic::Readline => "readline",
            Intrinsic::Substring => "substring",
            Intrinsic::ToChar => "to_char",
            Intrinsic::FromChar => "from_char",
            Intrinsic::Index => "string_index",
            Intrinsic::Join => "join",
            Intrinsic::Length => "length",
            Intrinsic::Assert => "assert",
            Intrinsic::Eval => "eval_i",
            Intrinsic::Greater => "greater",
            Intrinsic::Less => "less",
            Intrinsic::Not => "not",
            Intrinsic::Decrement => "decrement",
            Intrinsic::Increment => "increment",
            Intrinsic::Equals => "equals",
        }
    }

    /// The stack effect of the operation as written in the table.
    pub fn arity(&self) -> (r: Arity)
        ensures
            r@ == intrinsic_arity(*self),
            r@.wf(),
    {
        proof {
            reveal_with_fuel(MultiIndex::sorted, 3);
            reveal_with_fuel(MultiIndex::below, 3);
        }
        match self {
            Intrinsic::Plus => Arity::number_binary(),
            Intrinsic::Minus => Arity::number_binary(),
            Intrinsic::Times => Arity::number_binary(),
            Intrinsic::Divide => Arity::number_binary(),
            Intrinsic::Modulo => Arity::number_binary(),
            Intrinsic::Pow => Arity::number_binary(),
            Intrinsic::Or => Arity::generic_1(2, MultiIndex::pair(0, 1)),
            Intrinsic::And => Arity::generic_1(2, MultiIndex::pair(0, 1)),
            Intrinsic::Swap => Arity::generic_2(2, MultiIndex::single(0), MultiIndex::single(1)),
            Intrinsic::Dup => Arity::generic_2(1, MultiIndex::single(0), MultiIndex::single(0)),
            Intrinsic::Over => Arity::generic_3(2, MultiIndex::single(1), MultiIndex::single(0), MultiIndex::single(1)),
            Intrinsic::Rot => Arity::generic_3(3, MultiIndex::single(1), MultiIndex::single(0), MultiIndex::single(2)),
            Intrinsic::Drop => take_one(),
            Intrinsic::Print => take_one(),
            Intrinsic::Readline => Arity::push_two(Type::String, Type::Bool),
            Intrinsic::Substring => Arity::ternary(Type::Number, Type::Number, Type::String, Type::String),
            Intrinsic::ToChar => Arity::unary(Type::String, Type::Number),
            Intrinsic::FromChar => Arity::unary(Type::Number, Type::String),
            Intrinsic::Index => Arity::binary(Type::String, Type::String, Type::Number),
            Intrinsic::Join => Arity::binary(Type::Unknown, Type::Unknown, Type::String),
            Intrinsic::Length => Arity::unary(Type::String, Type::Number),
            Intrinsic::Assert => take_two(Type::String, Type::Unknown),
            Intrinsic::Eval => Arity::noop(),
            Intrinsic::Greater => Arity::binary(Type::Number, Type::Number, Type::Bool),
            Intrinsic::Less => Arity::binary(Type::Number, Type::Number, Type::Bool),
            Intrinsic::Not => Arity::unary(Type::Unknown, Type::Bool),
            Intrinsic::Decrement => Arity::number_unary(),
            Intrinsic::Increment => Arity::number_unary(),
            Intrinsic::Equals => Arity::binary(Type::Unknown, Type::Unknown, Type::Bool),
        }
    }
}

fn spells(chars: &Vec<char>, word: &str) -> (r: bool)
    ensures
        r == (chars@ == word@),
{
    let other = chars_of(word);
    if chars.len() != other.len() {
        return false;
    }
    let mut i: usize = 0;
    while i < chars.len()
        invariant
            i <= chars.len(),
            chars.len() == other.len(),
            other@ == word@,
            forall|k: int| 0 <= k < i ==> chars@[k] == other@[k],
        decreases chars.len() - i,
    {
        if chars[i] != other[i] {
            return false;
        }
        i += 1;
    }
    assert(chars@ =~= other@);
    true
}

/// The slot of an operation in the lookup table of 256 slots.
pub open spec fn intrinsic_slot(i: Intrinsic) -> int {
    match i {
        Intrinsic::Plus => 100,
        Intrinsic::Minus => 188,
        Intrinsic::Times => 56,
        Intrinsic::Divide => 20,
        Intrinsic::Modulo => 92,
        Intrinsic::Pow => 98,
        Intrinsic::Or => 204,
        Intrinsic::And => 174,
        Intrinsic::Swap => 59,
        Intrinsic::Dup => 165,
        Intrinsic::Over => 138,
        Intrinsic::Rot => 7,
        Intrinsic::Drop => 162,
        Intrinsic::Print => 178,
        Intrinsic::Readline => 253,
        Intrinsic::Substring => 57,
        Intrinsic::ToChar => 95,
        Intrinsic::FromChar => 250,
        Intrinsic::Index => 122,
        Intrinsic::Join => 167,
        Intrinsic::Length => 245,
        Intrinsic::Assert => 31,
        Intrinsic::Eval => 210,
        Intrinsic::Greater => 168,
        Intrinsic::Less => 80,
        Intrinsic::Not => 172,
        Intrinsic::Decrement => 233,
        Intrinsic::Increment => 143,
        Intrinsic::Equals => 185,
    }
}

/// The slot of an operation is the hash of its name.
pub proof fn name_hashes_to_slot(i: Intrinsic)
    ensures
        name_hash(vstd::utf8::encode_utf8(intrinsic_name(i))) == intrinsic_slot(i),
{
    match i {
        Intrinsic::Plus => {
            reveal_strlit("+");
            is_ascii_chars_encode_utf8("+"@);
        },
        Intrinsic::Minus => {
            reveal_strlit("-");
            is_ascii_chars_encode_utf8("-"@);
        },
        Intrinsic::Times => {
            reveal_strlit("*");
            is_ascii_chars_encode_utf8("*"@);
        },
        Intrinsic::Divide => {
            reveal_strlit("/");
            is_ascii_chars_encode_utf8("/"@);
        },
        Intrinsic::Modulo => {
            reveal_strlit("%");
            is_ascii_chars_encode_utf8("%"@);
        },
        Intrinsic::Pow => {
            reveal_strlit("**");
            is_ascii_chars_encode_utf8("**"@);
        },
        Intrinsic::Or => {
            reveal_strlit("||");
            is_ascii_chars_encode_utf8("||"@);
        },
        Intrinsic::And => {
            reveal_strlit("&&");
            is_ascii_chars_encode_utf8("&&"@);
        },
        Intrinsic::Swap => {
            reveal_strlit("swap");
            is_ascii_chars_encode_utf8("swap"@);
        },
        Intrinsic::Dup => {
            reveal_strlit("dup");
            is_ascii_chars_encode_utf8("dup"@);
        },
        Intrinsic::Over => {
            reveal_strlit("over");
            is_ascii_chars_encode_utf8("over"@);
        },
        Intrinsic::Rot => {
            reveal_strlit("rot");
            is_ascii_chars_encode_utf8("rot"@);
        },
        Intrinsic::Drop => {
            reveal_strlit("drop");
            is_ascii_chars_encode_utf8("drop"@);
        },
        Intrinsic::Print => {
            reveal_strlit("print");
            is_ascii_chars_encode_utf8("print"@);
        },
        Intrinsic::Readline => {
            reveal_strlit("readline");
            is_ascii_chars_encode_utf8("readline"@);
        },
        Intrinsic::Substring => {
            reveal_strlit("substring");
            is_ascii_chars_encode_utf8("substring"@);
        },
        Intrinsic::ToChar => {
            reveal_strlit("to_char");
            is_ascii_chars_encode_utf8("to_char"@);
        },
        Intrinsic::FromChar => {
            reveal_strlit("from_char");
            is_ascii_chars_encode_utf8("from_char"@);
        },
        Intrinsic::Index => {
            reveal_strlit("index");
            is_ascii_chars_encode_utf8("index"@);
        },
        Intrinsic::Join => {
            reveal_strlit("join");
            is_ascii_chars_encode_utf8("join"@);
        },
        Intrinsic::Length => {
            reveal_strlit("length");
            is_ascii_chars_encode_utf8("length"@);
        },
        Intrinsic::Assert => {
            reveal_strlit("assert");
            is_ascii_chars_encode_utf8("assert"@);
        },
        Intrinsic::Eval => {
            reveal_strlit("eval");
            is_ascii_chars_encode_utf8("eval"@);
        },
        Intrinsic::Greater => {
            reveal_strlit(">");
            is_ascii_chars_encode_utf8(">"@);
        },
        Intrinsic::Less => {
            reveal_strlit("<");
            is_ascii_chars_encode_utf8("<"@);
        },
        Intrinsic::Not => {
            reveal_strlit("!");
            is_ascii_chars_encode_utf8("!"@);
        },
        Intrinsic::Decrement => {
            reveal_strlit("--");
            is_ascii_chars_encode_utf8("--"@);
        },
        Intrinsic::Increment => {
            reveal_strlit("++");
            is_ascii_chars_encode_utf8("++"@);
        },
        Intrinsic::Equals => {
            reveal_strlit("==");
            is_ascii_chars_encode_utf8("=="@);
        },
    }
}

/// The hash is perfect on the names of the operations: no two operations share a slot
/// of the lookup table.
pub proof fn slots_are_distinct(i: Intrinsic, j: Intrinsic)
    ensures
        intrinsic_slot(i) == intrinsic_slot(j) ==> i == j,
        name_hash(vstd::utf8::encode_utf8(intrinsic_name(i))) == name_hash(
            vstd::utf8::encode_utf8(intrinsic_name(j)),
        ) ==> i == j,
{
    name_hashes_to_slot(i);
    name_hashes_to_slot(j);
}

/// The operation in a slot of the lookup table, if the slot holds one.
fn at_slot(slot: usize) -> (r: Option<Intrinsic>)
    ensures
        match r {
            Some(i) => intrinsic_slot(i) == slot,
            None => forall|i: Intrinsic| #[trigger] intrinsic_slot(i) != slot,
        },
{
    if slot == 100 {
        Some(Intrinsic::Plus)
    } else if slot == 188 {
        Some(Intrinsic::Minus)
    } else if slot == 56 {
        Some(Intrinsic::Times)
    } else if slot == 20 {
        Some(Intrinsic::Divide)
    } else if slot == 92 {
        Some(Intrinsic::Modulo)
    } else if slot == 98 {
        Some(Intrinsic::Pow)
    } else if slot == 204 {
        Some(Intrinsic::Or)
    } else if slot == 174 {
        Some(Intrinsic::And)
    } else if slot == 59 {
        Some(Intrinsic::Swap)
    } else if slot == 165 {
        Some(Intrinsic::Dup)
    } else if slot == 138 {
        Some(Intrinsic::Over)
    } else if slot == 7 {
        Some(Intrinsic::Rot)
    } else if slot == 162 {
        Some(Intrinsic::Drop)
    } else if slot == 178 {
        Some(Intrinsic::Print)
    } else if slot == 253 {
        Some(Intrinsic::Readline)
    } else if slot == 57 {
        Some(Intrinsic::Substring)
    } else if slot == 95 {
        Some(Intrinsic::ToChar)
    } else if slot == 250 {
        Some(Intrinsic::FromChar)
    } else if slot == 122 {
        Some(Intrinsic::Index)
    } else if slot == 167 {
        Some(Intrinsic::Join)
    } else if slot == 245 {
        Some(Intrinsic::Length)
    } else if slot == 31 {
        Some(Intrinsic::Assert)
    } else if slot == 210 {
        Some(Intrinsic::Eval)
    } else if slot == 168 {
        Some(Intrinsic::Greater)
    } else if slot == 80 {
        Some(Intrinsic::Less)
    } else if slot == 172 {
        Some(Intrinsic::Not)
    } else if slot == 233 {
        Some(Intrinsic::Decrement)
    } else if slot == 143 {
        Some(Intrinsic::Increment)
    } else if slot == 185 {
        Some(Intrinsic::Equals)
    } else {
        None
    }
}

/// The operation a name stands for, if it stands for one: the operation in the slot of
/// the lookup table that the name hashes to, if it has that name.
pub fn get_intrinsic(name: &str) -> (r: Option<Intrinsic>)
    ensures
        r == intrinsic_named(name@),
{
    let slot = hash_name(name);
    proof {
        match intrinsic_named(name@) {
            Some(j) => {
                assert(name@ == intrinsic_name(j));
                name_hashes_to_slot(j);
            },
            None => {},
        }
    }
    match at_slot(slot) {
        Some(i) => {
            proof {
                intrinsic_found_by_name(i);
                match intrinsic_named(name@) {
                    Some(j) => slots_are_distinct(i, j),
                    None => {},
                }
            }
            let chars = chars_of(name);
            if spells(&chars, i.name()) {
                Some(i)
            } else {
                None
            }
        },
        None => None,
    }
}

/// One row of the table of operations.
#[derive(Debug)]
pub struct IntrinsicData {
    pub name: &'static str,
    pub arity: Arity,
    pub kind: Intrinsic,
}

/// The operation at the given position of the table.
pub open spec fn table_entry(i: int) -> Intrinsic {
    if i == 0 {
        Intrinsic::Plus
    } else if i == 1 {
        Intrinsic::Minus
    } else if i == 2 {
        Intrinsic::Times
    } else if i == 3 {
        Intrinsic::Divide
    } else if i == 4 {
        Intrinsic::Modulo
    } else if i == 5 {
        Intrinsic::Pow
    } else if i == 6 {
        Intrinsic::Or
    } else if i == 7 {
        Intrinsic::And
    } else if i == 8 {
        Intrinsic::Swap
    } else if i == 9 {
        Intrinsic::Dup
    } else if i == 10 {
        Intrinsic::Over
    } else if i == 11 {
        Intrinsic::Rot
    } else if i == 12 {
        Intrinsic::Drop
    } else if i == 13 {
        Intrinsic::Print
    } else if i == 14 {
        Intrinsic::Readline
    } else if i == 15 {
        Intrinsic::Substring
    } else if i == 16 {
        Intrinsic::ToChar
    } else if i == 17 {
        Intrinsic::FromChar
    } else if i == 18 {
        Intrinsic::Index
    } else if i == 19 {
        Intrinsic::Join
    } else if i == 20 {
        Intrinsic::Length
    } else if i == 21 {
        Intrinsic::Assert
    } else if i == 22 {
        Intrinsic::Eval
    } else if i == 23 {
        Intrinsic::Greater
    } else if i == 24 {
        Intrinsic::Less
    } else if i == 25 {
        Intrinsic::Not
    } else if i == 26 {
        Intrinsic::Decrement
    } else if i == 27 {
        Intrinsic::Increment
    } else {
        Intrinsic::Equals
    }
}

/// The table of operations: every operation once, with its name and stack effect.
pub fn get_intrinsics() -> (r: Vec<IntrinsicData>)
    ensures
        r.len() == 29,
        forall|i: int|
            0 <= i < r.len() ==> (#[trigger] r@[i]).kind == table_entry(i) && r@[i].name@
                == intrinsic_name(r@[i].kind) && r@[i].arity@ == intrinsic_arity(r@[i].kind),
{
    let mut out: Vec<IntrinsicData> = Vec::new();
    out.push(row(Intrinsic::Plus));
    out.push(row(Intrinsic::Minus));
    out.push(row(Intrinsic::Times));
    out.push(row(Intrinsic::Divide));
    out.push(row(Intrinsic::Modulo));
    out.push(row(Intrinsic::Pow));
    out.push(row(Intrinsic::Or));
    out.push(row(Intrinsic::And));
    out.push(row(Intrinsic::Swap));
    out.push(row(Intrinsic::Dup));
    out.push(row(Intrinsic::Over));
    out.push(row(Intrinsic::Rot));
    out.push(row(Intrinsic::Drop));
    out.push(row(Intrinsic::Print));
    out.push(row(Intrinsic::Readline));
    out.push(row(Intrinsic::Substring));
    out.push(row(Intrinsic::ToChar));
    out.push(row(Intrinsic::FromChar));
    out.push(row(Intrinsic::Index));
    out.push(row(Intrinsic::Join));
    out.push(row(Intrinsic::Length));
    out.push(row(Intrinsic::Assert));
    out.push(row(Intrinsic::Eval));
    out.push(row(Intrinsic::Greater));
    out.push(row(Intrinsic::Less));
    out.push(row(Intrinsic::Not));
    out.push(row(Intrinsic::Decrement));
    out.push(row(Intrinsic::Increment));
    out.push(row(Intrinsic::Equals));
    out
}

fn row(kind: Intrinsic) -> (r: IntrinsicData)
    ensures
        r.kind == kind,
        r.name@ == intrinsic_name(kind),
        r.arity@ == intrinsic_arity(kind),
{
    IntrinsicData { name: kind.name(), arity: kind.arity(), kind }
}

/// The hash of a name as bytes: three hundred times the first byte plus the second,
/// modulo 256, a missing byte counting as zero.
pub open spec fn name_hash(bytes: Seq<u8>) -> int {
    let first: int = if bytes.len() > 0 {
        bytes[0] as int
    } else {
        0
    };
    let second: int = if bytes.len() > 1 {
        bytes[1] as int
    } else {
        0
    };
    (first * 300 + second) % 256
}

/// The slot of a name in a lookup table of 256 slots.
pub fn hash_name(name: &str) -> (r: usize)
    ensures
        r == name_hash(name.spec_bytes()),
        r < 256,
{
    let b = name.as_bytes();
    let first: usize = if b.len() > 0 {
        b[0] as usize
    } else {
        0
    };
    let second: usize = if b.len() > 1 {
        b[1] as usize
    } else {
        0
    };
    (first * 300 + second) % 256
}

/// The name generated code calls an operation by, for the name a program calls it by.
pub fn get_intrinsic_codegen_name(name: &str) -> (r: Option<&'static str>)
    ensures
        match intrinsic_named(name@) {
            Some(i) => r is Some && r->0@ == intrinsic_alias(i),
            None => r is None,
        },
{
    match get_intrinsic(name) {
        Some(i) => Some(i.codegen_name()),
        None => None,
    }
}

/// The stack effect of the operation called `name`: nothing when there is no such
/// operation, and no definite effect for `eval`, which runs whatever it is handed.
pub fn get_intrinsic_arity(name: &str) -> (r: Result<Option<Arity>, AnalysisError>)
    ensures
        match intrinsic_named(name@) {
            Some(Intrinsic::Eval) => r is Err && r->Err_0 is IndefiniteSize,
            Some(i) => r is Ok && r->Ok_0 is Some && r->Ok_0->0@ == intrinsic_arity(i)
                && r->Ok_0->0@.wf(),
            None => r is Ok && r->Ok_0 is None,
        },
{
    match get_intrinsic(name) {
        Some(Intrinsic::Eval) => Err(AnalysisError::IndefiniteSize),
        Some(i) => Ok(Some(i.arity())),
        None => Ok(None),
    }
}

/// Every operation is found under its own name: no two operations share a name.
#[verifier::rlimit(60)]
pub proof fn intrinsic_found_by_name(i: Intrinsic)
    ensures
        intrinsic_named(intrinsic_name(i)) == Some(i),
{
    reveal_strlit("+");
    reveal_strlit("-");
    reveal_strlit("*");
    reveal_strlit("/");
    reveal_strlit("%");
    reveal_strlit("**");
    reveal_strlit("||");
    reveal_strlit("&&");
    reveal_strlit("swap");
    reveal_strlit("dup");
    reveal_strlit("over");
    reveal_strlit("rot");
    reveal_strlit("drop");
    reveal_strlit("print");
    reveal_strlit("readline");
    reveal_strlit("substring");
    reveal_strlit("to_char");
    reveal_strlit("from_char");
    reveal_strlit("index");
    reveal_strlit("join");
    reveal_strlit("length");
    reveal_strlit("assert");
    reveal_strlit("eval");
    reveal_strlit(">");
    reveal_strlit("<");
    reveal_strlit("!");
    reveal_strlit("--");
    reveal_strlit("++");
    reveal_strlit("==");
    match i {
        Intrinsic::Plus => {
        },
        Intrinsic::Minus => {
            assert("+"@[0] != "-"@[0]);
        },
        Intrinsic::Times => {
            assert("+"@[0] != "*"@[0]);
            assert("-"@[0] != "*"@[0]);
        },
        Intrinsic::Divide => {
            assert("+"@[0] != "/"@[0]);
            assert("-"@[0] != "/"@[0]);
            assert("*"@[0] != "/"@[0]);
        },
        Intrinsic::Modulo => {
            assert("+"@[0] != "%"@[0]);
            assert("-"@[0] != "%"@[0]);
            assert("*"@[0] != "%"@[0]);
            assert("/"@[0] != "%"@[0]);
        },
        Intrinsic::Pow => {
            assert("+"@.len() != "**"@.len());
            assert("-"@.len() != "**"@.len());
            assert("*"@.len() != "**"@.len());
            assert("/"@.len() != "**"@.len());
            assert("%"@.len() != "**"@.len());
        },
        Intrinsic::Or => {
            assert("+"@.len() != "||"@.len());
            assert("-"@.len() != "||"@.len());
            assert("*"@.len() != "||"@.len());
            assert("/"@.len() != "||"@.len());
            assert("%"@.len() != "||"@.len());
            assert("**"@[0] != "||"@[0]);
        },
        Intrinsic::And => {
            assert("+"@.len() != "&&"@.len());
            assert("-"@.len() != "&&"@.len());
            assert("*"@.len() != "&&"@.len());
            assert("/"@.len() != "&&"@.len());
            assert("%"@.len() != "&&"@.len());
            assert("**"@[0] != "&&"@[0]);
            assert("||"@[0] != "&&"@[0]);
        },
        Intrinsic::Swap => {
            assert("+"@.len() != "swap"@.len());
            assert("-"@.len() != "swap"@.len());
            assert("*"@.len() != "swap"@.len());
            assert("/"@.len() != "swap"@.len());
            assert("%"@.len() != "swap"@.len());
            assert("**"@.len() != "swap"@.len());
            assert("||"@.len() != "swap"@.len());
            assert("&&"@.len() != "swap"@.len());
        },
        Intrinsic::Dup => {
            assert("+"@.len() != "dup"@.len());
            assert("-"@.len() != "dup"@.len());
            assert("*"@.len() != "dup"@.len());
            assert("/"@.len() != "dup"@.len());
            assert("%"@.len() != "dup"@.len());
            assert("**"@.len() != "dup"@.len());
            assert("||"@.len() != "dup"@.len());
            assert("&&"@.len() != "dup"@.len());
            assert("swap"@.len() != "dup"@.len());
        },
        Intrinsic::Over => {
            assert("+"@.len() != "over"@.len());
            assert("-"@.len() != "over"@.len());
            assert("*"@.len() != "over"@.len());
            assert("/"@.len() != "over"@.len());
            assert("%"@.len() != "over"@.len());
            assert("**"@.len() != "over"@.len());
            assert("||"@.len() != "over"@.len());
            assert("&&"@.len() != "over"@.len());
            assert("swap"@[0] != "over"@[0]);
            assert("dup"@.len() != "over"@.len());
        },
        Intrinsic::Rot => {
            assert("+"@.len() != "rot"@.len());
            assert("-"@.len() != "rot"@.len());
            assert("*"@.len() != "rot"@.len());
            assert("/"@.len() != "rot"@.len());
            assert("%"@.len() != "rot"@.len());
            assert("**"@.len() != "rot"@.len());
            assert("||"@.len() != "rot"@.len());
            assert("&&"@.len() != "rot"@.len());
            assert("swap"@.len() != "rot"@.len());
            assert("dup"@[0] != "rot"@[0]);
            assert("over"@.len() != "rot"@.len());
        },
        Intrinsic::Drop => {
            assert("+"@.len() != "drop"@.len());
            assert("-"@.len() != "drop"@.len());
            assert("*"@.len() != "drop"@.len());
            assert("/"@.len() != "drop"@.len());
            assert("%"@.len() != "drop"@.len());
            assert("**"@.len() != "drop"@.len());
            assert("||"@.len() != "drop"@.len());
            assert("&&"@.len() != "drop"@.len());
            assert("swap"@[0] != "drop"@[0]);
            assert("dup"@.len() != "drop"@.len());
            assert("over"@[0] != "drop"@[0]);
            assert("rot"@.len() != "drop"@.len());
        },
        Intrinsic::Print => {
            assert("+"@.len() != "print"@.len());
            assert("-"@.len() != "print"@.len());
            assert("*"@.len() != "print"@.len());
            assert("/"@.len() != "print"@.len());
            assert("%"@.len() != "print"@.len());
            assert("**"@.len() != "print"@.len());
            assert("||"@.len() != "print"@.len());
            assert("&&"@.len() != "print"@.len());
            assert("swap"@.len() != "print"@.len());
            assert("dup"@.len() != "print"@.len());
            assert("over"@.len() != "print"@.len());
            assert("rot"@.len() != "print"@.len());
            assert("drop"@.len() != "print"@.len());
        },
        Intrinsic::Readline => {
            assert("+"@.len() != "readline"@.len());
            assert("-"@.len() != "readline"@.len());
            assert("*"@.len() != "readline"@.len());
            assert("/"@.len() != "readline"@.len());
            assert("%"@.len() != "readline"@.len());
            assert("**"@.len() != "readline"@.len());
            assert("||"@.len() != "readline"@.len());
            assert("&&"@.len() != "readline"@.len());
            assert("swap"@.len() != "readline"@.len());
            assert("dup"@.len() != "readline"@.len());
            assert("over"@.len() != "readline"@.len());
            assert("rot"@.len() != "readline"@.len());
            assert("drop"@.len() != "readline"@.len());
            assert("print"@.len() != "readline"@.len());
        },
        Intrinsic::Substring => {
            assert("+"@.len() != "substring"@.len());
            assert("-"@.len() != "substring"@.len());
            assert("*"@.len() != "substring"@.len());
            assert("/"@.len() != "substring"@.len());
            assert("%"@.len() != "substring"@.len());
            assert("**"@.len() != "substring"@.len());
            assert("||"@.len() != "substring"@.len());
            assert("&&"@.len() != "substring"@.len());
            assert("swap"@.len() != "substring"@.len());
            assert("dup"@.len() != "substring"@.len());
            assert("over"@.len() != "substring"@.len());
            assert("rot"@.len() != "substring"@.len());
            assert("drop"@.len() != "substring"@.len());
            assert("print"@.len() != "substring"@.len());
            assert("readline"@.len() != "substring"@.len());
        },
        Intrinsic::ToChar => {
            assert("+"@.len() != "to_char"@.len());
            assert("-"@.len() != "to_char"@.len());
            assert("*"@.len() != "to_char"@.len());
            assert("/"@.len() != "to_char"@.len());
            assert("%"@.len() != "to_char"@.len());
            assert("**"@.len() != "to_char"@.len());
            assert("||"@.len() != "to_char"@.len());
            assert("&&"@.len() != "to_char"@.len());
            assert("swap"@.len() != "to_char"@.len());
            assert("dup"@.len() != "to_char"@.len());
            assert("over"@.len() != "to_char"@.len());
            assert("rot"@.len() != "to_char"@.len());
            assert("drop"@.len() != "to_char"@.len());
            assert("print"@.len() != "to_char"@.len());
            assert("readline"@.len() != "to_char"@.len());
            assert("substring"@.len() != "to_char"@.len());
        },
        Intrinsic::FromChar => {
            assert("+"@.len() != "from_char"@.len());
            assert("-"@.len() != "from_char"@.len());
            assert("*"@.len() != "from_char"@.len());
            assert("/"@.len() != "from_char"@.len());
            assert("%"@.len() != "from_char"@.len());
            assert("**"@.len() != "from_char"@.len());
            assert("||"@.len() != "from_char"@.len());
            assert("&&"@.len() != "from_char"@.len());
            assert("swap"@.len() != "from_char"@.len());
            assert("dup"@.len() != "from_char"@.len());
            assert("over"@.len() != "from_char"@.len());
            assert("rot"@.len() != "from_char"@.len());
            assert("drop"@.len() != "from_char"@.len());
            assert("print"@.len() != "from_char"@.len());
            assert("readline"@.len() != "from_char"@.len());
            assert("substring"@[0] != "from_char"@[0]);
            assert("to_char"@.len() != "from_char"@.len());
        },
        Intrinsic::Index => {
            assert("+"@.len() != "index"@.len());
            assert("-"@.len() != "index"@.len());
            assert("*"@.len() != "index"@.len());
            assert("/"@.len() != "index"@.len());
            assert("%"@.len() != "index"@.len());
            assert("**"@.len() != "index"@.len());
            assert("||"@.len() != "index"@.len());
            assert("&&"@.len() != "index"@.len());
            assert("swap"@.len() != "index"@.len());
            assert("dup"@.len() != "index"@.len());
            assert("over"@.len() != "index"@.len());
            assert("rot"@.len() != "index"@.len());
            assert("drop"@.len() != "index"@.len());
            assert("print"@[0] != "index"@[0]);
            assert("readline"@.len() != "index"@.len());
            assert("substring"@.len() != "index"@.len());
            assert("to_char"@.len() != "index"@.len());
            assert("from_char"@.len() != "index"@.len());
        },
        Intrinsic::Join => {
            assert("+"@.len() != "join"@.len());
            assert("-"@.len() != "join"@.len());
            assert("*"@.len() != "join"@.len());
            assert("/"@.len() != "join"@.len());
            assert("%"@.len() != "join"@.len());
            assert("**"@.len() != "join"@.len());
            assert("||"@.len() != "join"@.len());
            assert("&&"@.len() != "join"@.len());
            assert("swap"@[0] != "join"@[0]);
            assert("dup"@.len() != "join"@.len());
            assert("over"@[0] != "join"@[0]);
            assert("rot"@.len() != "join"@.len());
            assert("drop"@[0] != "join"@[0]);
            assert("print"@.len() != "join"@.len());
            assert("readline"@.len() != "join"@.len());
            assert("substring"@.len() != "join"@.len());
            assert("to_char"@.len() != "join"@.len());
            assert("from_char"@.len() != "join"@.len());
            assert("index"@.len() != "join"@.len());
        },
        Intrinsic::Length => {
            assert("+"@.len() != "length"@.len());
            assert("-"@.len() != "length"@.len());
            assert("*"@.len() != "length"@.len());
            assert("/"@.len() != "length"@.len());
            assert("%"@.len() != "length"@.len());
            assert("**"@.len() != "length"@.len());
            assert("||"@.len() != "length"@.len());
            assert("&&"@.len() != "length"@.len());
            assert("swap"@.len() != "length"@.len());
            assert("dup"@.len() != "length"@.len());
            assert("over"@.len() != "length"@.len());
            assert("rot"@.len() != "length"@.len());
            assert("drop"@.len() != "length"@.len());
            assert("print"@.len() != "length"@.len());
            assert("readline"@.len() != "length"@.len());
            assert("substring"@.len() != "length"@.len());
            assert("to_char"@.len() != "length"@.len());
            assert("from_char"@.len() != "length"@.len());
            assert("index"@.len() != "length"@.len());
            assert("join"@.len() != "length"@.len());
        },
        Intrinsic::Assert => {
            assert("+"@.len() != "assert"@.len());
            assert("-"@.len() != "assert"@.len());
            assert("*"@.len() != "assert"@.len());
            assert("/"@.len() != "assert"@.len());
            assert("%"@.len() != "assert"@.len());
            assert("**"@.len() != "assert"@.len());
            assert("||"@.len() != "assert"@.len());
            assert("&&"@.len() != "assert"@.len());
            assert("swap"@.len() != "assert"@.len());
            assert("dup"@.len() != "assert"@.len());
            assert("over"@.len() != "assert"@.len());
            assert("rot"@.len() != "assert"@.len());
            assert("drop"@.len() != "assert"@.len());
            assert("print"@.len() != "assert"@.len());
            assert("readline"@.len() != "assert"@.len());
            assert("substring"@.len() != "assert"@.len());
            assert("to_char"@.len() != "assert"@.len());
            assert("from_char"@.len() != "assert"@.len());
            assert("index"@.len() != "assert"@.len());
            assert("join"@.len() != "assert"@.len());
            assert("length"@[0] != "assert"@[0]);
        },
        Intrinsic::Eval => {
            assert("+"@.len() != "eval"@.len());
            assert("-"@.len() != "eval"@.len());
            assert("*"@.len() != "eval"@.len());
            assert("/"@.len() != "eval"@.len());
            assert("%"@.len() != "eval"@.len());
            assert("**"@.len() != "eval"@.len());
            assert("||"@.len() != "eval"@.len());
            assert("&&"@.len() != "eval"@.len());
            assert("swap"@[0] != "eval"@[0]);
            assert("dup"@.len() != "eval"@.len());
            assert("over"@[0] != "eval"@[0]);
            assert("rot"@.len() != "eval"@.len());
            assert("drop"@[0] != "eval"@[0]);
            assert("print"@.len() != "eval"@.len());
            assert("readline"@.len() != "eval"@.len());
            assert("substring"@.len() != "eval"@.len());
            assert("to_char"@.len() != "eval"@.len());
            assert("from_char"@.len() != "eval"@.len());
            assert("index"@.len() != "eval"@.len());
            assert("join"@[0] != "eval"@[0]);
            assert("length"@.len() != "eval"@.len());
            assert("assert"@.len() != "eval"@.len());
        },
        Intrinsic::Greater => {
            assert("+"@[0] != ">"@[0]);
            assert("-"@[0] != ">"@[0]);
            assert("*"@[0] != ">"@[0]);
            assert("/"@[0] != ">"@[0]);
            assert("%"@[0] != ">"@[0]);
            assert("**"@.len() != ">"@.len());
            assert("||"@.len() != ">"@.len());
            assert("&&"@.len() != ">"@.len());
            assert("swap"@.len() != ">"@.len());
            assert("dup"@.len() != ">"@.len());
            assert("over"@.len() != ">"@.len());
            assert("rot"@.len() != ">"@.len());
            assert("drop"@.len() != ">"@.len());
            assert("print"@.len() != ">"@.len());
            assert("readline"@.len() != ">"@.len());
            assert("substring"@.len() != ">"@.len());
            assert("to_char"@.len() != ">"@.len());
            assert("from_char"@.len() != ">"@.len());
            assert("index"@.len() != ">"@.len());
            assert("join"@.len() != ">"@.len());
            assert("length"@.len() != ">"@.len());
            assert("assert"@.len() != ">"@.len());
            assert("eval"@.len() != ">"@.len());
        },
        Intrinsic::Less => {
            assert("+"@[0] != "<"@[0]);
            assert("-"@[0] != "<"@[0]);
            assert("*"@[0] != "<"@[0]);
            assert("/"@[0] != "<"@[0]);
            assert("%"@[0] != "<"@[0]);
            assert("**"@.len() != "<"@.len());
            assert("||"@.len() != "<"@.len());
            assert("&&"@.len() != "<"@.len());
            assert("swap"@.len() != "<"@.len());
            assert("dup"@.len() != "<"@.len());
            assert("over"@.len() != "<"@.len());
            assert("rot"@.len() != "<"@.len());
            assert("drop"@.len() != "<"@.len());
            assert("print"@.len() != "<"@.len());
            assert("readline"@.len() != "<"@.len());
            assert("substring"@.len() != "<"@.len());
            assert("to_char"@.len() != "<"@.len());
            assert("from_char"@.len() != "<"@.len());
            assert("index"@.len() != "<"@.len());
            assert("join"@.len() != "<"@.len());
            assert("length"@.len() != "<"@.len());
            assert("assert"@.len() != "<"@.len());
            assert("eval"@.len() != "<"@.len());
            assert(">"@[0] != "<"@[0]);
        },
        Intrinsic::Not => {
            assert("+"@[0] != "!"@[0]);
            assert("-"@[0] != "!"@[0]);
            assert("*"@[0] != "!"@[0]);
            assert("/"@[0] != "!"@[0]);
            assert("%"@[0] != "!"@[0]);
            assert("**"@.len() != "!"@.len());
            assert("||"@.len() != "!"@.len());
            assert("&&"@.len() != "!"@.len());
            assert("swap"@.len() != "!"@.len());
            assert("dup"@.len() != "!"@.len());
            assert("over"@.len() != "!"@.len());
            assert("rot"@.len() != "!"@.len());
            assert("drop"@.len() != "!"@.len());
            assert("print"@.len() != "!"@.len());
            assert("readline"@.len() != "!"@.len());
            assert("substring"@.len() != "!"@.len());
            assert("to_char"@.len() != "!"@.len());
            assert("from_char"@.len() != "!"@.len());
            assert("index"@.len() != "!"@.len());
            assert("join"@.len() != "!"@.len());
            assert("length"@.len() != "!"@.len());
            assert("assert"@.len() != "!"@.len());
            assert("eval"@.len() != "!"@.len());
            assert(">"@[0] != "!"@[0]);
            assert("<"@[0] != "!"@[0]);
        },
        Intrinsic::Decrement => {
            assert("+"@.len() != "--"@.len());
            assert("-"@.len() != "--"@.len());
            assert("*"@.len() != "--"@.len());
            assert("/"@.len() != "--"@.len());
            assert("%"@.len() != "--"@.len());
            assert("**"@[0] != "--"@[0]);
            assert("||"@[0] != "--"@[0]);
            assert("&&"@[0] != "--"@[0]);
            assert("swap"@.len() != "--"@.len());
            assert("dup"@.len() != "--"@.len());
            assert("over"@.len() != "--"@.len());
            assert("rot"@.len() != "--"@.len());
            assert("drop"@.len() != "--"@.len());
            assert("print"@.len() != "--"@.len());
            assert("readline"@.len() != "--"@.len());
            assert("substring"@.len() != "--"@.len());
            assert("to_char"@.len() != "--"@.len());
            assert("from_char"@.len() != "--"@.len());
            assert("index"@.len() != "--"@.len());
            assert("join"@.len() != "--"@.len());
            assert("length"@.len() != "--"@.len());
            assert("assert"@.len() != "--"@.len());
            assert("eval"@.len() != "--"@.len());
            assert(">"@.len() != "--"@.len());
            assert("<"@.len() != "--"@.len());
            assert("!"@.len() != "--"@.len());
        },
        Intrinsic::Increment => {
            assert("+"@.len() != "++"@.len());
            assert("-"@.len() != "++"@.len());
            assert("*"@.len() != "++"@.len());
            assert("/"@.len() != "++"@.len());
            assert("%"@.len() != "++"@.len());
            assert("**"@[0] != "++"@[0]);
            assert("||"@[0] != "++"@[0]);
            assert("&&"@[0] != "++"@[0]);
            assert("swap"@.len() != "++"@.len());
            assert("dup"@.len() != "++"@.len());
            assert("over"@.len() != "++"@.len());
            assert("rot"@.len() != "++"@.len());
            assert("drop"@.len() != "++"@.len());
            assert("print"@.len() != "++"@.len());
            assert("readline"@.len() != "++"@.len());
            assert("substring"@.len() != "++"@.len());
            assert("to_char"@.len() != "++"@.len());
            assert("from_char"@.len() != "++"@.len());
            assert("index"@.len() != "++"@.len());
            assert("join"@.len() != "++"@.len());
            assert("length"@.len() != "++"@.len());
            assert("assert"@.len() != "++"@.len());
            assert("eval"@.len() != "++"@.len());
            assert(">"@.len() != "++"@.len());
            assert("<"@.len() != "++"@.len());
            assert("!"@.len() != "++"@.len());
            assert("--"@[0] != "++"@[0]);
        },
        Intrinsic::Equals => {
            assert("+"@.len() != "=="@.len());
            assert("-"@.len() != "=="@.len());
            assert("*"@.len() != "=="@.len());
            assert("/"@.len() != "=="@.len());
            assert("%"@.len() != "=="@.len());
            assert("**"@[0] != "=="@[0]);
            assert("||"@[0] != "=="@[0]);
            assert("&&"@[0] != "=="@[0]);
            assert("swap"@.len() != "=="@.len());
            assert("dup"@.len() != "=="@.len());
            assert("over"@.len() != "=="@.len());
            assert("rot"@.len() != "=="@.len());
            assert("drop"@.len() != "=="@.len());
            assert("print"@.len() != "=="@.len());
            assert("readline"@.len() != "=="@.len());
            assert("substring"@.len() != "=="@.len());
            assert("to_char"@.len() != "=="@.len());
            assert("from_char"@.len() != "=="@.len());
            assert("index"@.len() != "=="@.len());
            assert("join"@.len() != "=="@.len());
            assert("length"@.len() != "=="@.len());
            assert("assert"@.len() != "=="@.len());
            assert("eval"@.len() != "=="@.len());
            assert(">"@.len() != "=="@.len());
            assert("<"@.len() != "=="@.len());
            assert("!"@.len() != "=="@.len());
            assert("--"@[0] != "=="@[0]);
            assert("++"@[0] != "=="@[0]);
        },
    }
}

} // verus!
