//! What the generators write for each construct of the language, in each dialect.
use vstd::prelude::*;
use vstd::string::StringSliceAdditionalSpecFns;
use crate::codegen::target::outdented;
use crate::intrinsics::{intrinsic_alias, intrinsic_named};
use crate::lang::ast::{Branch, Loop, TermModel};
use crate::program::{resolution, NamespaceId, NamespaceModel};
use crate::text::{byte_length, debug_quoted, decimal};

verus! {

/// A dialect of generated code.
#[derive(Copy, Clone, PartialEq, Eq, Debug, Structural)]
pub enum Dialect {
    /// C, against a runtime of checked calls.
    C,
    /// JavaScript.
    Js,
    /// Rust, against a runtime with an interpreter value.
    Rs,
}

/// Why no code was generated.
pub type CodegenError = String;

/// What was generated so far: the running indentation, the text, and how many number
/// literals were written.
pub struct Emitted {
    pub indent: Seq<char>,
    pub text: Seq<char>,
    pub used: nat,
}

/// One more line.
pub open spec fn line(e: Emitted, s: Seq<char>) -> Emitted {
    Emitted { indent: e.indent, text: e.text + e.indent + s + seq!['\n'], used: e.used }
}

/// One level deeper.
pub open spec fn deeper(e: Emitted) -> Emitted {
    Emitted { indent: e.indent + seq![' ', ' '], text: e.text, used: e.used }
}

/// One level back.
pub open spec fn shallower(e: Emitted) -> Emitted {
    Emitted { indent: outdented(e.indent), text: e.text, used: e.used }
}

/// The name generated code gives the function `name` of namespace `ns`.
pub open spec fn scoped(ns: nat, name: Seq<char>) -> Seq<char> {
    "user_fn_"@ + decimal(ns) + "_"@ + name
}

/// The name generated code calls `name` by when it is used in namespace `ns`: the
/// alias of a built-in operation, or the scoped name of the function it resolves to.
pub open spec fn name_text(p: Seq<NamespaceModel>, ns: NamespaceId, name: Seq<char>) -> Result<
    Seq<char>,
    Seq<char>,
> {
    match intrinsic_named(name) {
        Some(i) => Ok(intrinsic_alias(i)),
        None => match resolution(p, ns, name) {
            Some((n, i)) => Ok(scoped(n as nat, p[n as int].functions[i].name)),
            None => Err("Unable to resolve name: "@ + name),
        },
    }
}

/// The line that pushes a string literal.
pub open spec fn string_line(d: Dialect, s: Seq<char>) -> Seq<char> {
    match d {
        Dialect::C => "checked(push_string_literal("@ + debug_quoted(s) + ", "@ + decimal(
            byte_length(s) as nat,
        ) + "));"@,
        Dialect::Js => "push("@ + debug_quoted(s) + ")"@,
        Dialect::Rs => "c.push("@ + debug_quoted(s) + ")?;"@,
    }
}

/// The line that pushes a number literal, given the text of the number.
pub open spec fn number_line(d: Dialect, text: Seq<char>) -> Seq<char> {
    match d {
        Dialect::C => "checked(push_number_literal("@ + text + "L));"@,
        Dialect::Js => "push("@ + text + ")"@,
        Dialect::Rs => "c.push("@ + text + seq!['f', '6', '4'] + ")?;"@,
    }
}

/// The line that pushes a truth value.
pub open spec fn bool_line(d: Dialect, b: bool) -> Seq<char> {
    match d {
        Dialect::C => if b {
            "checked(push_true_literal());"@
        } else {
            "checked(push_false_literal());"@
        },
        Dialect::Js => if b {
            "push(true)"@
        } else {
            "push(false)"@
        },
        Dialect::Rs => if b {
            "c.push(true)?;"@
        } else {
            "c.push(false)?;"@
        },
    }
}

/// The line that calls a function or operation.
pub open spec fn call_line(d: Dialect, name: Seq<char>) -> Seq<char> {
    match d {
        Dialect::C => "checked("@ + name + "());"@,
        Dialect::Js => name + "()"@,
        Dialect::Rs => name + "(c)?;"@,
    }
}

/// The line that pushes a function pointer.
pub open spec fn address_line(d: Dialect, name: Seq<char>) -> Seq<char> {
    match d {
        Dialect::C => "checked(push_fn_address(&"@ + name + "));"@,
        Dialect::Js => "push("@ + name + ")"@,
        Dialect::Rs => "c.push(&("@ + name + " as Operation))?;"@,
    }
}

/// The lines that test the outcome of a condition and open the arm it guards.
pub open spec fn test_lines(d: Dialect, e: Emitted) -> Emitted {
    match d {
        Dialect::C => line(
            line(line(e, "int c;"@), "checked(check_condition(&c));"@),
            "if (c) {"@,
        ),
        Dialect::Js => line(e, "if (checkCondition()) {"@),
        Dialect::Rs => line(e, "if c.check_condition()? {"@),
    }
}

/// The lines that test the outcome of a loop's condition and leave the loop when it fails.
pub open spec fn break_lines(d: Dialect, e: Emitted) -> Emitted {
    match d {
        Dialect::C => line(
            shallower(
                line(
                    line(
                        line(
                            line(line(deeper(line(e, "{"@)), "int c;"@), "checked(check_condition(&c));"@),
                            "if (!c) {"@,
                        ),
                        "  break;"@,
                    ),
                    "}"@,
                ),
            ),
            "}"@,
        ),
        Dialect::Js => line(line(line(e, "if (!checkCondition()) {"@), "  break"@), "}"@),
        Dialect::Rs => line(e, "if !c.check_condition()? { break }"@),
    }
}

/// The line that opens a loop.
pub open spec fn loop_open(d: Dialect) -> Seq<char> {
    match d {
        Dialect::C => "while (1) {"@,
        Dialect::Js => "while (1) {"@,
        Dialect::Rs => "loop {"@,
    }
}

/// What generating needs to know: the dialect, the program, the namespace whose code
/// is generated, and the texts of the number literals in the order they are met.
pub struct Setting {
    pub dialect: Dialect,
    pub program: Seq<NamespaceModel>,
    pub namespace: NamespaceId,
    pub numbers: Seq<Seq<char>>,
}

/// The closing lines of `k` arms of a branch.
pub open spec fn closers(e: Emitted, k: nat) -> Emitted
    decreases k,
{
    if k == 0 {
        e
    } else {
        line(shallower(closers(e, (k - 1) as nat)), "}"@)
    }
}

/// What is generated for a term.
pub open spec fn term_out(s: Setting, t: TermModel, e: Emitted) -> Result<Emitted, Seq<char>>
    decreases t, 0int,
{
    match t {
        TermModel::String(x) => Ok(line(e, string_line(s.dialect, x))),
        TermModel::Number(_) => if e.used < s.numbers.len() {
            Ok(
                line(
                    Emitted { indent: e.indent, text: e.text, used: e.used + 1 },
                    number_line(s.dialect, s.numbers[e.used as int]),
                ),
            )
        } else {
            Err("Missing text for a number literal"@)
        },
        TermModel::Bool(b) => Ok(line(e, bool_line(s.dialect, b))),
        TermModel::Name(n, _) => match name_text(s.program, s.namespace, n) {
            Ok(x) => Ok(line(e, call_line(s.dialect, x))),
            Err(m) => Err(m),
        },
        TermModel::Address(n) => match name_text(s.program, s.namespace, n) {
            Ok(x) => Ok(line(e, address_line(s.dialect, x))),
            Err(m) => Err(m),
        },
        TermModel::Capture(_, _) => Err("Capture variables cannot be generated"@),
        TermModel::Branch(arms) => match arms_out(s, arms, arms.len(), e) {
            Ok(e2) => Ok(closers(e2, arms.len())),
            Err(m) => Err(m),
        },
        TermModel::Loop(pre, body, post) => {
            let e1 = deeper(line(e, loop_open(s.dialect)));
            match check_out(s, pre, e1) {
                Err(m) => Err(m),
                Ok(e2) => match block_out(s, body, body.len(), e2) {
                    Err(m) => Err(m),
                    Ok(e3) => match check_out(s, post, e3) {
                        Err(m) => Err(m),
                        Ok(e4) => Ok(line(shallower(e4), "}"@)),
                    },
                },
            }
        },
    }
}

/// What is generated for the first `k` terms of a block.
pub open spec fn block_out(s: Setting, block: Seq<TermModel>, k: nat, e: Emitted) -> Result<
    Emitted,
    Seq<char>,
>
    decreases block, k,
{
    if k == 0 || k > block.len() {
        Ok(e)
    } else {
        match block_out(s, block, (k - 1) as nat, e) {
            Err(m) => Err(m),
            Ok(e1) => term_out(s, block[k - 1], e1),
        }
    }
}

/// What is generated for an optional loop condition.
pub open spec fn check_out(s: Setting, cond: Option<Seq<TermModel>>, e: Emitted) -> Result<
    Emitted,
    Seq<char>,
>
    decreases cond, 1int,
{
    match cond {
        None => Ok(e),
        Some(b) => match block_out(s, b, b.len(), e) {
            Err(m) => Err(m),
            Ok(e1) => Ok(break_lines(s.dialect, e1)),
        },
    }
}

/// What is generated for the first `k` arms of a branch, each left open for the next.
pub open spec fn arms_out(
    s: Setting,
    arms: Seq<(Seq<TermModel>, Seq<TermModel>)>,
    k: nat,
    e: Emitted,
) -> Result<Emitted, Seq<char>>
    decreases arms, k,
{
    if k == 0 || k > arms.len() {
        Ok(e)
    } else {
        match arms_out(s, arms, (k - 1) as nat, e) {
            Err(m) => Err(m),
            Ok(e1) => match block_out(s, arms[k - 1].0, arms[k - 1].0.len(), e1) {
                Err(m) => Err(m),
                Ok(e2) => match block_out(
                    s,
                    arms[k - 1].1,
                    arms[k - 1].1.len(),
                    deeper(test_lines(s.dialect, e2)),
                ) {
                    Err(m) => Err(m),
                    Ok(e3) => Ok(deeper(line(shallower(e3), "} else {"@))),
                },
            },
        }
    }
}

/// What is generated for a function under the given name.
pub open spec fn function_out(s: Setting, name: Seq<char>, body: Seq<TermModel>, e: Emitted) -> Result<
    Emitted,
    Seq<char>,
> {
    match s.dialect {
        Dialect::C => if body.len() == 0 {
            Ok(line(e, "status_t "@ + name + "(void) { return OK; }"@))
        } else {
            match block_out(
                s,
                body,
                body.len(),
                deeper(line(e, "status_t "@ + name + "(void) {"@)),
            ) {
                Err(m) => Err(m),
                Ok(e1) => Ok(line(shallower(line(e1, "return OK;"@)), "}"@)),
            }
        },
        Dialect::Js => match block_out(
            s,
            body,
            body.len(),
            deeper(line(e, "function "@ + name + "() {"@)),
        ) {
            Err(m) => Err(m),
            Ok(e1) => Ok(line(shallower(e1), "}"@)),
        },
        Dialect::Rs => match block_out(
            s,
            body,
            body.len(),
            deeper(line(e, "fn "@ + name + "(c: &mut Interpreter) -> InterpreterResult {"@)),
        ) {
            Err(m) => Err(m),
            Ok(e1) => Ok(line(shallower(line(e1, "Ok(())"@)), "}"@)),
        },
    }
}

} // verus!
