//! The operand stack, and the built-in operations that need nothing but the stack.
use vstd::prelude::*;
use crate::intrinsics::Intrinsic;
use crate::lang::number::Number;
use crate::lang::string::char_string::CharString;
use crate::lang::value::{Value, ValueModel};

verus! {

/// The values of a stack, lowest first.
pub open spec fn values(stack: Seq<Value>) -> Seq<ValueModel> {
    stack.map_values(|v: Value| v@)
}

/// What an operation on the stack gives: the stack afterwards, or the message it fails with.
pub type StackOutcome = Result<Seq<ValueModel>, Seq<char>>;

/// The message for a stack that holds too little.
pub open spec fn stack_empty() -> Seq<char> {
    "Stack empty"@
}

/// Takes the top of the stack.
pub fn take(stack: &mut Vec<Value>) -> (r: Result<Value, String>)
    ensures
        old(stack)@.len() == 0 ==> r is Err && r->Err_0@ == stack_empty() && values(final(stack)@)
            == values(old(stack)@),
        old(stack)@.len() > 0 ==> r is Ok && r->Ok_0@ == values(old(stack)@).last() && values(
            final(stack)@,
        ) == values(old(stack)@).drop_last(),
{
    let ghost before = values(stack@);
    match stack.pop() {
        Some(a) => {
            assert(values(stack@) =~= before.drop_last());
            Ok(a)
        },
        None => Err(String::from_str("Stack empty")),
    }
}

/// Puts a value on top of the stack.
pub fn push(stack: &mut Vec<Value>, v: Value)
    ensures
        values(final(stack)@) == values(old(stack)@).push(v@),
{
    let ghost before = values(stack@);
    let ghost m = v@;
    stack.push(v);
    assert(values(stack@) =~= before.push(m));
}

/// Takes the top of the stack, which must be a number.
pub fn take_number(stack: &mut Vec<Value>) -> (r: Result<Number, String>)
    ensures
        old(stack)@.len() == 0 ==> r is Err && r->Err_0@ == stack_empty() && values(final(stack)@)
            == values(old(stack)@),
        old(stack)@.len() > 0 ==> values(final(stack)@) == values(old(stack)@).drop_last()
            && match values(old(stack)@).last() {
            ValueModel::Number(n) => r is Ok && r->Ok_0 == n,
            _ => r is Err && r->Err_0@ == "Expected number on top of stack"@,
        },
{
    match take(stack) {
        Ok(Value::Number(v)) => Ok(v),
        Ok(_) => Err(String::from_str("Expected number on top of stack")),
        Err(e) => Err(e),
    }
}

/// Takes the top of the stack, which must be a string.
pub fn take_string(stack: &mut Vec<Value>) -> (r: Result<CharString, String>)
    ensures
        old(stack)@.len() == 0 ==> r is Err && r->Err_0@ == stack_empty() && values(final(stack)@)
            == values(old(stack)@),
        old(stack)@.len() > 0 ==> values(final(stack)@) == values(old(stack)@).drop_last()
            && match values(old(stack)@).last() {
            ValueModel::String(s) => r is Ok && r->Ok_0@ == s,
            _ => r is Err && r->Err_0@ == "Expected string on top of stack"@,
        },
{
    match take(stack) {
        Ok(Value::String(v)) => Ok(v),
        Ok(_) => Err(String::from_str("Expected string on top of stack")),
        Err(e) => Err(e),
    }
}

/// Takes the two topmost values; the lower one comes first.
pub fn take2(stack: &mut Vec<Value>) -> (r: Result<(Value, Value), String>)
    ensures
        old(stack)@.len() < 2 ==> r is Err && r->Err_0@ == stack_empty() && final(stack)@.len()
            == 0,
        old(stack)@.len() >= 2 ==> r is Ok && r->Ok_0.0@ == values(old(stack)@)[old(stack)@.len()
            - 2] && r->Ok_0.1@ == values(old(stack)@)[old(stack)@.len() - 1] && values(
            final(stack)@,
        ) == values(old(stack)@).take(old(stack)@.len() - 2),
{
    let ghost before = values(stack@);
    let top = match take(stack) {
        Ok(v) => v,
        Err(e) => {
            assert(stack@.len() == values(stack@).len());
            return Err(e);
        },
    };
    let second = match take(stack) {
        Ok(v) => v,
        Err(e) => {
            assert(stack@.len() == values(stack@).len());
            return Err(e);
        },
    };
    assert(values(stack@) =~= before.take(before.len() - 2));
    Ok((second, top))
}

/// Takes the three topmost values; the lowest one comes first.
pub fn take3(stack: &mut Vec<Value>) -> (r: Result<(Value, Value, Value), String>)
    ensures
        old(stack)@.len() < 3 ==> r is Err && r->Err_0@ == stack_empty() && final(stack)@.len()
            == 0,
        old(stack)@.len() >= 3 ==> r is Ok && r->Ok_0.0@ == values(old(stack)@)[old(stack)@.len()
            - 3] && r->Ok_0.1@ == values(old(stack)@)[old(stack)@.len() - 2] && r->Ok_0.2@
            == values(old(stack)@)[old(stack)@.len() - 1] && values(final(stack)@) == values(
            old(stack)@,
        ).take(old(stack)@.len() - 3),
{
    let ghost before = values(stack@);
    let c = match take(stack) {
        Ok(v) => v,
        Err(e) => {
            assert(stack@.len() == values(stack@).len());
            return Err(e);
        },
    };
    assert(values(stack@).len() == before.len() - 1);
    let b = match take(stack) {
        Ok(v) => v,
        Err(e) => {
            assert(stack@.len() == values(stack@).len());
            return Err(e);
        },
    };
    assert(values(stack@).len() == before.len() - 2);
    let a = match take(stack) {
        Ok(v) => v,
        Err(e) => {
            assert(stack@.len() == values(stack@).len());
            return Err(e);
        },
    };
    assert(values(stack@) =~= before.take(before.len() - 3));
    Ok((a, b, c))
}

/// Takes the two topmost values, which must be numbers; the lower one comes first.
pub fn take2_numbers(stack: &mut Vec<Value>) -> (r: Result<(Number, Number), String>)
    ensures
        old(stack)@.len() < 2 ==> r is Err && r->Err_0@ == stack_empty() && final(stack)@.len()
            == 0,
        old(stack)@.len() >= 2 ==> values(final(stack)@) == values(old(stack)@).take(
            old(stack)@.len() - 2,
        ) && match (
            values(old(stack)@)[old(stack)@.len() - 2],
            values(old(stack)@)[old(stack)@.len() - 1],
        ) {
            (ValueModel::Number(a), ValueModel::Number(b)) => r is Ok && r->Ok_0 == (a, b),
            _ => r is Err && r->Err_0@ == "Expected two numbers on top of stack"@,
        },
{
    match take2(stack) {
        Ok((Value::Number(a), Value::Number(b))) => Ok((a, b)),
        Ok(_) => Err(String::from_str("Expected two numbers on top of stack")),
        Err(e) => Err(e),
    }
}

/// Puts two values on the stack, the first below the second.
pub fn push2(stack: &mut Vec<Value>, a: Value, b: Value)
    ensures
        values(final(stack)@) == values(old(stack)@).push(a@).push(b@),
{
    push(stack, a);
    push(stack, b);
}

/// Puts three values on the stack, the first lowest.
pub fn push3(stack: &mut Vec<Value>, a: Value, b: Value, c: Value)
    ensures
        values(final(stack)@) == values(old(stack)@).push(a@).push(b@).push(c@),
{
    push(stack, a);
    push(stack, b);
    push(stack, c);
}

/// Whether an operation needs nothing but the stack.
pub open spec fn is_stack_only(i: Intrinsic) -> bool {
    i is Or || i is And || i is Swap || i is Dup || i is Over || i is Rot || i is Drop || i is Not
}

/// How many values a stack-only operation takes.
pub open spec fn takes(i: Intrinsic) -> nat {
    match i {
        Intrinsic::Rot => 3,
        Intrinsic::Dup => 1,
        Intrinsic::Drop => 1,
        Intrinsic::Not => 1,
        _ => 2,
    }
}

/// What a stack-only operation leaves in place of the values it took, `a` being the
/// lowest of them and `c` the topmost (for fewer than three, the later ones count).
pub open spec fn gives(i: Intrinsic, a: ValueModel, b: ValueModel, c: ValueModel) -> Seq<
    ValueModel,
> {
    match i {
        Intrinsic::Or => seq![
            if b.truthy() {
                b
            } else {
                c
            },
        ],
        Intrinsic::And => seq![
            if b.truthy() {
                c
            } else {
                b
            },
        ],
        Intrinsic::Swap => seq![c, b],
        Intrinsic::Dup => seq![c, c],
        Intrinsic::Over => seq![b, c, b],
        Intrinsic::Rot => seq![b, c, a],
        Intrinsic::Drop => Seq::empty(),
        Intrinsic::Not => seq![ValueModel::Bool(!c.truthy())],
        _ => Seq::empty(),
    }
}

/// The stack after a stack-only operation.
pub open spec fn stack_effect(i: Intrinsic, stack: Seq<ValueModel>) -> StackOutcome {
    let n = stack.len() as int;
    if n < takes(i) {
        Err(stack_empty())
    } else {
        Ok(
            stack.take(n - takes(i)) + gives(
                i,
                stack[if n >= 3 {
                    n - 3
                } else {
                    0
                }],
                stack[if n >= 2 {
                    n - 2
                } else {
                    0
                }],
                stack[n - 1],
            ),
        )
    }
}

/// Runs a stack-only operation.
pub fn apply(i: Intrinsic, stack: &mut Vec<Value>) -> (r: Result<(), String>)
    requires
        is_stack_only(i),
    ensures
        match stack_effect(i, values(old(stack)@)) {
            Ok(after) => r is Ok && values(final(stack)@) == after,
            Err(e) => r is Err && r->Err_0@ == e && final(stack)@.len() == 0,
        },
{
    let ghost before = values(stack@);
    let ghost n = before.len() as int;
    match i {
        Intrinsic::Or => {
            let (a, b) = match take2(stack) {
                Ok(v) => v,
                Err(e) => {
                    return Err(e);
                },
            };
            let keep = if a.is_truthy() {
                a
            } else {
                b
            };
            push(stack, keep);
        },
        Intrinsic::And => {
            let (a, b) = match take2(stack) {
                Ok(v) => v,
                Err(e) => {
                    return Err(e);
                },
            };
            let keep = if a.is_truthy() {
                b
            } else {
                a
            };
            push(stack, keep);
        },
        Intrinsic::Swap => {
            let (a, b) = match take2(stack) {
                Ok(v) => v,
                Err(e) => {
                    return Err(e);
                },
            };
            push2(stack, b, a);
        },
        Intrinsic::Dup => {
            let v = match take(stack) {
                Ok(v) => v,
                Err(e) => {
                    return Err(e);
                },
            };
            let copy = v.duplicate();
            push2(stack, copy, v);
            assert(before.drop_last() =~= before.take(n - 1));
        },
        Intrinsic::Over => {
            let (a, b) = match take2(stack) {
                Ok(v) => v,
                Err(e) => {
                    return Err(e);
                },
            };
            let copy = a.duplicate();
            push3(stack, copy, b, a);
        },
        Intrinsic::Rot => {
            let (a, b, c) = match take3(stack) {
                Ok(v) => v,
                Err(e) => {
                    return Err(e);
                },
            };
            push3(stack, b, c, a);
        },
        Intrinsic::Drop => {
            match take(stack) {
                Ok(_) => {},
                Err(e) => {
                    return Err(e);
                },
            }
            assert(before.drop_last() =~= before.take(n - 1));
        },
        _ => {
            let v = match take(stack) {
                Ok(v) => v,
                Err(e) => {
                    return Err(e);
                },
            };
            push(stack, Value::Bool(!v.is_truthy()));
            assert(before.drop_last() =~= before.take(n - 1));
        },
    }
    assert(values(stack@) =~= stack_effect(i, before)->Ok_0);
    Ok(())
}

/// A stack-only operation changes the height of the stack by what its stack effect in
/// the table says: it fails exactly when the stack holds fewer values than the effect
/// pops, and else leaves as many more values as the effect pushes more than it pops.
pub proof fn stack_only_operations_keep_account(i: Intrinsic, stack: Seq<ValueModel>)
    requires
        is_stack_only(i),
    ensures
        stack_effect(i, stack) is Err <==> stack.len() < crate::intrinsics::intrinsic_arity(
            i,
        ).pops.len(),
        stack_effect(i, stack) is Ok ==> stack_effect(i, stack)->Ok_0.len()
            + crate::intrinsics::intrinsic_arity(i).pops.len() == stack.len()
            + crate::intrinsics::intrinsic_arity(i).pushes.len(),
{
}

} // verus!
