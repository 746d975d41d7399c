//! When generating succeeds: on a program and an entry block in which every name
//! stands for something and no capture variable occurs, given a text for every number
//! literal.
use vstd::prelude::*;
use crate::codegen::emit::{
    arms_out, block_out, check_out, closers, deeper, function_out, line, term_out,
    test_lines, Emitted, Setting,
};
use crate::codegen::module::{
    all_declared, arms_numbers, block_numbers, declared, functions_numbers, functions_out,
    in_namespace, module_out, namespaces_out, opening, program_numbers, program_out,
    term_numbers,
};
use crate::intrinsics::intrinsic_named;
use crate::lang::ast::TermModel;
use crate::program::{resolution, NamespaceId, NamespaceModel};

verus! {

/// A name stands for something in a namespace: for a built-in operation, or for a
/// function that it resolves to.
pub open spec fn name_known(p: Seq<NamespaceModel>, ns: NamespaceId, name: Seq<char>) -> bool {
    intrinsic_named(name) is Some || resolution(p, ns, name) is Some
}

/// A term can be generated: every name in it stands for something, and it holds no
/// capture variable.
pub open spec fn term_fits(s: Setting, t: TermModel) -> bool
    decreases t, 0int,
{
    match t {
        TermModel::Name(n, _) => name_known(s.program, s.namespace, n),
        TermModel::Address(n) => name_known(s.program, s.namespace, n),
        TermModel::Capture(_, _) => false,
        TermModel::Branch(arms) => arms_fit(s, arms, arms.len()),
        TermModel::Loop(pre, body, post) => (match pre {
            Some(b) => block_fits(s, b, b.len()),
            None => true,
        }) && block_fits(s, body, body.len()) && (match post {
            Some(b) => block_fits(s, b, b.len()),
            None => true,
        }),
        _ => true,
    }
}

/// The first `k` terms of a block can be generated.
pub open spec fn block_fits(s: Setting, block: Seq<TermModel>, k: nat) -> bool
    decreases block, k,
{
    k == 0 || k > block.len() || (block_fits(s, block, (k - 1) as nat) && term_fits(
        s,
        block[k - 1],
    ))
}

/// The first `k` arms of a branch can be generated.
pub open spec fn arms_fit(s: Setting, arms: Seq<(Seq<TermModel>, Seq<TermModel>)>, k: nat) -> bool
    decreases arms, k,
{
    k == 0 || k > arms.len() || (arms_fit(s, arms, (k - 1) as nat) && block_fits(
        s,
        arms[k - 1].0,
        arms[k - 1].0.len(),
    ) && block_fits(s, arms[k - 1].1, arms[k - 1].1.len()))
}

/// Every function of the program can be generated in its namespace.
pub open spec fn program_fits(s: Setting) -> bool {
    forall|ns: int, f: int|
        0 <= ns < s.program.len() && 0 <= f < s.program[ns].functions.len() ==> block_fits(
            in_namespace(s, ns as usize),
            (#[trigger] s.program[ns].functions[f]).body,
            s.program[ns].functions[f].body.len(),
        )
}

/// Closing the arms of a branch uses no number text.
pub proof fn closers_use_nothing(e: Emitted, k: nat)
    ensures
        closers(e, k).used == e.used,
    decreases k,
{
    if k > 0 {
        closers_use_nothing(e, (k - 1) as nat);
    }
}

/// A term that can be generated is generated, given enough number texts, and uses
/// one text for each of its number literals.
pub proof fn term_succeeds(s: Setting, t: TermModel, e: Emitted)
    requires
        term_fits(s, t),
        e.used + term_numbers(t).len() <= s.numbers.len(),
    ensures
        term_out(s, t, e) is Ok,
        term_out(s, t, e)->Ok_0.used == e.used + term_numbers(t).len(),
    decreases t, 0int,
{
    match t {
        TermModel::Branch(arms) => {
            arms_succeed(s, arms, arms.len(), e);
            closers_use_nothing(arms_out(s, arms, arms.len(), e)->Ok_0, arms.len());
        },
        TermModel::Loop(pre, body, post) => {
            let e1 = deeper(line(e, crate::codegen::emit::loop_open(s.dialect)));
            match pre {
                Some(b) => block_succeeds(s, b, b.len(), e1),
                None => {},
            }
            let e2 = check_out(s, pre, e1)->Ok_0;
            block_succeeds(s, body, body.len(), e2);
            let e3 = block_out(s, body, body.len(), e2)->Ok_0;
            match post {
                Some(b) => block_succeeds(s, b, b.len(), e3),
                None => {},
            }
        },
        _ => {},
    }
}

/// A block that can be generated is generated, given enough number texts, and uses
/// one text for each of its number literals.
pub proof fn block_succeeds(s: Setting, block: Seq<TermModel>, k: nat, e: Emitted)
    requires
        k <= block.len(),
        block_fits(s, block, k),
        e.used + block_numbers(block, k).len() <= s.numbers.len(),
    ensures
        block_out(s, block, k, e) is Ok,
        block_out(s, block, k, e)->Ok_0.used == e.used + block_numbers(block, k).len(),
    decreases block, k,
{
    if k > 0 {
        block_succeeds(s, block, (k - 1) as nat, e);
        term_succeeds(s, block[k - 1], block_out(s, block, (k - 1) as nat, e)->Ok_0);
    }
}

/// The arms of a branch that can be generated are generated, given enough number
/// texts, and use one text for each of their number literals.
pub proof fn arms_succeed(
    s: Setting,
    arms: Seq<(Seq<TermModel>, Seq<TermModel>)>,
    k: nat,
    e: Emitted,
)
    requires
        k <= arms.len(),
        arms_fit(s, arms, k),
        e.used + arms_numbers(arms, k).len() <= s.numbers.len(),
    ensures
        arms_out(s, arms, k, e) is Ok,
        arms_out(s, arms, k, e)->Ok_0.used == e.used + arms_numbers(arms, k).len(),
    decreases arms, k,
{
    if k > 0 {
        arms_succeed(s, arms, (k - 1) as nat, e);
        let e1 = arms_out(s, arms, (k - 1) as nat, e)->Ok_0;
        block_succeeds(s, arms[k - 1].0, arms[k - 1].0.len(), e1);
        let e2 = block_out(s, arms[k - 1].0, arms[k - 1].0.len(), e1)->Ok_0;
        block_succeeds(s, arms[k - 1].1, arms[k - 1].1.len(), deeper(test_lines(s.dialect, e2)));
    }
}

/// A function whose body can be generated is generated, given enough number texts.
pub proof fn function_succeeds(s: Setting, name: Seq<char>, body: Seq<TermModel>, e: Emitted)
    requires
        block_fits(s, body, body.len()),
        e.used + block_numbers(body, body.len()).len() <= s.numbers.len(),
    ensures
        function_out(s, name, body, e) is Ok,
        function_out(s, name, body, e)->Ok_0.used == e.used + block_numbers(
            body,
            body.len(),
        ).len(),
{
    match s.dialect {
        crate::codegen::emit::Dialect::C => {
            block_succeeds(
                s,
                body,
                body.len(),
                deeper(line(e, "status_t "@ + name + "(void) {"@)),
            );
        },
        crate::codegen::emit::Dialect::Js => {
            block_succeeds(s, body, body.len(), deeper(line(e, "function "@ + name + "() {"@)));
        },
        crate::codegen::emit::Dialect::Rs => {
            block_succeeds(
                s,
                body,
                body.len(),
                deeper(
                    line(e, "fn "@ + name + "(c: &mut Interpreter) -> InterpreterResult {"@),
                ),
            );
        },
    }
}

/// The first `k` functions of the namespace of the setting are generated.
pub proof fn functions_succeed(s: Setting, k: nat, e: Emitted)
    requires
        s.namespace < s.program.len(),
        k <= s.program[s.namespace as int].functions.len(),
        forall|f: int|
            0 <= f < k ==> block_fits(
                s,
                (#[trigger] s.program[s.namespace as int].functions[f]).body,
                s.program[s.namespace as int].functions[f].body.len(),
            ),
        e.used + functions_numbers(s.program[s.namespace as int], k).len() <= s.numbers.len(),
    ensures
        functions_out(s, k, e) is Ok,
        functions_out(s, k, e)->Ok_0.used == e.used + functions_numbers(
            s.program[s.namespace as int],
            k,
        ).len(),
    decreases k,
{
    if k > 0 {
        functions_succeed(s, (k - 1) as nat, e);
        let f = s.program[s.namespace as int].functions[k - 1];
        function_succeeds(
            s,
            crate::codegen::emit::scoped(s.namespace as nat, f.name),
            f.body,
            functions_out(s, (k - 1) as nat, e)->Ok_0,
        );
    }
}

/// The functions of the first `n` namespaces are generated.
pub proof fn namespaces_succeed(s: Setting, n: nat, e: Emitted)
    requires
        n <= s.program.len() <= usize::MAX,
        program_fits(s),
        e.used + program_numbers(s.program, n).len() <= s.numbers.len(),
    ensures
        namespaces_out(s, n, e) is Ok,
        namespaces_out(s, n, e)->Ok_0.used == e.used + program_numbers(s.program, n).len(),
    decreases n,
{
    if n > 0 {
        namespaces_succeed(s, (n - 1) as nat, e);
        let inner = in_namespace(s, (n - 1) as usize);
        functions_succeed(
            inner,
            s.program[n - 1].functions.len(),
            namespaces_out(s, (n - 1) as nat, e)->Ok_0,
        );
    }
}

/// The forward declarations use no number text.
pub proof fn declarations_use_nothing(p: Seq<NamespaceModel>, n: nat, e: Emitted)
    ensures
        all_declared(p, n, e).used == e.used,
    decreases n,
{
    if n > 0 {
        declarations_use_nothing(p, (n - 1) as nat, e);
        declared_use_nothing(p, (n - 1) as nat, p[n - 1].functions.len(), all_declared(p, (n - 1) as nat, e));
    }
}

/// The forward declarations of a namespace use no number text.
pub proof fn declared_use_nothing(p: Seq<NamespaceModel>, ns: nat, k: nat, e: Emitted)
    ensures
        declared(p, ns, k, e).used == e.used,
    decreases k,
{
    if k > 0 {
        declared_use_nothing(p, ns, (k - 1) as nat, e);
    }
}

/// Generating succeeds on every program in which every name stands for something and
/// no capture variable occurs, given a text for every number literal: those of the
/// functions and then those of the entry block.
pub proof fn generation_succeeds(s: Setting, runtime: Seq<char>, main: Seq<TermModel>)
    requires
        s.program.len() <= usize::MAX,
        program_fits(s),
        block_fits(s, main, main.len()),
        program_numbers(s.program, s.program.len()).len() + block_numbers(main, main.len()).len()
            <= s.numbers.len(),
    ensures
        module_out(s, main) is Ok,
        program_out(s, runtime, main) is Ok,
{
    declarations_use_nothing(
        s.program,
        s.program.len(),
        Emitted { indent: Seq::empty(), text: Seq::empty(), used: 0 },
    );
    namespaces_succeed(s, s.program.len(), opening(s));
    let e1 = namespaces_out(s, s.program.len(), opening(s))->Ok_0;
    function_succeeds(s, "main_body"@, main, e1);
}

} // verus!
