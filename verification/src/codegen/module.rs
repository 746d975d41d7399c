//! Generating a whole program: every function of every namespace, then the entry block.
use vstd::prelude::*;
use crate::codegen::context::{codegen_func, CodegenContext};
use crate::codegen::runtime::Runtime;
use crate::codegen::emit::{
    function_out, line, scoped, CodegenError, Dialect, Emitted, Setting,
};
use crate::lang::ast::{arms_model, term_model, Block, Branch, Loop, Term, TermModel};
use crate::lang::number::Number;
use crate::program::{program_wf, NamespaceId, NamespaceModel, Program};
use crate::text::{chars_of, push_all, push_str, string_of};

verus! {

/// What is generated for the first `k` functions of the namespace of the setting.
pub open spec fn functions_out(s: Setting, k: nat, e: Emitted) -> Result<Emitted, Seq<char>>
    decreases k,
{
    if k == 0 {
        Ok(e)
    } else {
        match functions_out(s, (k - 1) as nat, e) {
            Err(m) => Err(m),
            Ok(e1) => {
                let f = s.program[s.namespace as int].functions[k - 1];
                function_out(s, scoped(s.namespace as nat, f.name), f.body, e1)
            },
        }
    }
}

/// The setting for the code of another namespace.
pub open spec fn in_namespace(s: Setting, ns: NamespaceId) -> Setting {
    Setting { dialect: s.dialect, program: s.program, namespace: ns, numbers: s.numbers }
}

/// What is generated for the functions of the first `n` namespaces.
pub open spec fn namespaces_out(s: Setting, n: nat, e: Emitted) -> Result<Emitted, Seq<char>>
    decreases n,
{
    if n == 0 {
        Ok(e)
    } else {
        match namespaces_out(s, (n - 1) as nat, e) {
            Err(m) => Err(m),
            Ok(e1) => functions_out(
                in_namespace(s, (n - 1) as usize),
                s.program[n - 1].functions.len(),
                e1,
            ),
        }
    }
}

/// The forward declarations of the first `k` functions of namespace `ns`.
pub open spec fn declared(p: Seq<NamespaceModel>, ns: nat, k: nat, e: Emitted) -> Emitted
    decreases k,
{
    if k == 0 {
        e
    } else {
        line(
            declared(p, ns, (k - 1) as nat, e),
            "status_t "@ + scoped(ns, p[ns as int].functions[k - 1].name) + "(void);"@,
        )
    }
}

/// The forward declarations of the functions of the first `n` namespaces.
pub open spec fn all_declared(p: Seq<NamespaceModel>, n: nat, e: Emitted) -> Emitted
    decreases n,
{
    if n == 0 {
        e
    } else {
        declared(p, (n - 1) as nat, p[n - 1].functions.len(), all_declared(p, (n - 1) as nat, e))
    }
}

/// What starts every generated program: in C, the forward declarations.
pub open spec fn opening(s: Setting) -> Emitted {
    let start = Emitted { indent: Seq::empty(), text: Seq::empty(), used: 0 };
    match s.dialect {
        Dialect::C => all_declared(s.program, s.program.len(), start),
        _ => start,
    }
}

/// What ends every generated program: the entry point that runs the entry block and
/// shows what is left on the stack.
pub open spec fn closing(d: Dialect, e: Emitted) -> Seq<char> {
    match d {
        Dialect::C => e.text
            + "\nint main(void) {\n  checked(main_body());\n  checked(print_stack());\n}\n"@,
        Dialect::Js => line(
            e,
            "try {\n  main_body()\n  printStack()\n} catch (err) {\n   console.error(err)\n}"@,
        ).text,
        Dialect::Rs => e.text
            + "\nfn main() -> InterpreterResult {\n  let mut c = Interpreter::new();\n  main_body(&mut c)?;\n  c.print()?;\n  Ok(())\n}\n"@,
    }
}

/// The program text generated for a program with the given entry block: what follows
/// the runtime.
pub open spec fn module_out(s: Setting, main: Seq<TermModel>) -> Result<Seq<char>, Seq<char>> {
    match namespaces_out(s, s.program.len(), opening(s)) {
        Err(m) => Err(m),
        Ok(e1) => match function_out(s, "main_body"@, main, e1) {
            Err(m) => Err(m),
            Ok(e2) => Ok(closing(s.dialect, e2)),
        },
    }
}

/// What stands between the runtime and the program text: a line end in JavaScript.
pub open spec fn seam(d: Dialect) -> Seq<char> {
    match d {
        Dialect::Js => seq!['\n'],
        _ => Seq::empty(),
    }
}

/// The whole text generated for a program with the given entry block: the runtime of
/// the dialect in front, then the program text.
pub open spec fn program_out(s: Setting, runtime: Seq<char>, main: Seq<TermModel>) -> Result<
    Seq<char>,
    Seq<char>,
> {
    match module_out(s, main) {
        Ok(text) => Ok(runtime + seam(s.dialect) + text),
        Err(m) => Err(m),
    }
}

/// Once a function has failed, nothing is generated for its namespace.
pub proof fn functions_out_failure_sticks(s: Setting, i: nat, n: nat, e: Emitted)
    requires
        functions_out(s, i, e) is Err,
        i <= n,
    ensures
        functions_out(s, n, e) == functions_out(s, i, e),
    decreases n,
{
    if n > i {
        functions_out_failure_sticks(s, i, (n - 1) as nat, e);
    }
}

/// Once a namespace has failed, nothing is generated for the program.
pub proof fn namespaces_out_failure_sticks(s: Setting, i: nat, n: nat, e: Emitted)
    requires
        namespaces_out(s, i, e) is Err,
        i <= n,
    ensures
        namespaces_out(s, n, e) == namespaces_out(s, i, e),
    decreases n,
{
    if n > i {
        namespaces_out_failure_sticks(s, i, (n - 1) as nat, e);
    }
}

fn forward_declare_func(ctx: &mut CodegenContext, name: &str)
    ensures
        final(ctx).same_job(*old(ctx)),
        final(ctx).emitted() == line(
            old(ctx).emitted(),
            "status_t "@ + scoped(old(ctx).namespace as nat, name@) + "(void);"@,
        ),
{
    let scoped_name = chars_of(ctx.get_scoped_name(name).as_str());
    let mut text: Vec<char> = Vec::new();
    push_str(&mut text, "status_t ");
    push_all(&mut text, &scoped_name);
    push_str(&mut text, "(void);");
    assert(text@ =~= "status_t "@ + scoped(ctx.namespace as nat, name@) + "(void);"@);
    ctx.emit(&text);
}

fn declare_all(ctx: &mut CodegenContext)
    ensures
        final(ctx).program == old(ctx).program,
        final(ctx).dialect == old(ctx).dialect,
        final(ctx).numbers == old(ctx).numbers,
        final(ctx).emitted() == all_declared(
            old(ctx).program@,
            old(ctx).program@.len(),
            old(ctx).emitted(),
        ),
{
    let ghost p = ctx.program@;
    let ghost start = ctx.emitted();
    let mut id: usize = 0;
    while id < ctx.program.namespaces.len()
        invariant
            id <= ctx.program.namespaces.len(),
            ctx.program == old(ctx).program,
            ctx.dialect == old(ctx).dialect,
            ctx.numbers == old(ctx).numbers,
            p == ctx.program@,
            ctx.emitted() == all_declared(p, id as nat, start),
        decreases ctx.program.namespaces.len() - id,
    {
        ctx.namespace = id;
        let ghost row_start = ctx.emitted();
        assert(p[id as int] == ctx.program.namespaces@[id as int]@);
        let count = ctx.program.namespaces[id].functions.len();
        let mut k: usize = 0;
        while k < count
            invariant
                k <= count,
                id < ctx.program.namespaces.len(),
                count == ctx.program.namespaces@[id as int].functions.len(),
                ctx.namespace == id,
                ctx.program == old(ctx).program,
                ctx.dialect == old(ctx).dialect,
                ctx.numbers == old(ctx).numbers,
                p == ctx.program@,
                ctx.emitted() == declared(p, id as nat, k as nat, row_start),
            decreases count - k,
        {
            assert(p[id as int] == ctx.program.namespaces@[id as int]@);
            let program = ctx.program;
            let function = &program.namespaces[id].functions[k];
            assert(p[id as int].functions[k as int] == function@);
            forward_declare_func(ctx, function.name.as_str());
            k += 1;
        }
        id += 1;
    }
}

/// The program text for a program in a dialect, with `main` as its entry block.
fn module_text(
    program: &Program,
    dialect: Dialect,
    main_namespace: NamespaceId,
    main: &Block,
    numbers: &Vec<String>,
) -> (r: Result<String, CodegenError>)
    requires
        program_wf(program@),
        main_namespace < program@.len(),
    ensures
        match module_out(
            Setting {
                dialect,
                program: program@,
                namespace: main_namespace,
                numbers: numbers@.map_values(|n: String| n@),
            },
            main@,
        ) {
            Ok(text) => r is Ok && r->Ok_0@ == text,
            Err(m) => r is Err && r->Err_0@ == m,
        },
{
    let mut ctx = CodegenContext::new(program, dialect, numbers);
    let ghost s = Setting {
        dialect,
        program: program@,
        namespace: main_namespace,
        numbers: numbers@.map_values(|n: String| n@),
    };
    match dialect {
        Dialect::C => declare_all(&mut ctx),
        _ => {},
    }
    let ghost start = ctx.emitted();
    assert(start == opening(s));
    let mut id: usize = 0;
    while id < program.namespaces.len()
        invariant
            id <= program.namespaces.len(),
            program_wf(program@),
            ctx.program == program,
            ctx.dialect == dialect,
            ctx.numbers == numbers,
            s == (Setting {
                dialect,
                program: program@,
                namespace: main_namespace,
                numbers: numbers@.map_values(|n: String| n@),
            }),
            start == opening(s),
            namespaces_out(s, id as nat, start) == Ok::<Emitted, Seq<char>>(ctx.emitted()),
        decreases program.namespaces.len() - id,
    {
        ctx.namespace = id;
        let ghost row_start = ctx.emitted();
        let ghost here = in_namespace(s, id);
        assert(ctx.setting() == here);
        assert(program@[id as int] == program.namespaces@[id as int]@);
        let count = program.namespaces[id].functions.len();
        let mut k: usize = 0;
        while k < count
            invariant
                k <= count,
                id < program.namespaces.len(),
                count == program.namespaces@[id as int].functions.len(),
                program_wf(program@),
                ctx.namespace == id,
                ctx.program == program,
                ctx.dialect == dialect,
                ctx.numbers == numbers,
                ctx.setting() == here,
                here == in_namespace(s, id),
                s == (Setting {
                    dialect,
                    program: program@,
                    namespace: main_namespace,
                    numbers: numbers@.map_values(|n: String| n@),
                }),
                start == opening(s),
                functions_out(here, k as nat, row_start) == Ok::<Emitted, Seq<char>>(
                    ctx.emitted(),
                ),
                namespaces_out(s, id as nat, start) == Ok::<Emitted, Seq<char>>(row_start),
            decreases count - k,
        {
            assert(program@[id as int] == program.namespaces@[id as int]@);
            let function = &program.namespaces[id].functions[k];
            assert(program@[id as int].functions[k as int] == function@);
            let name = ctx.get_scoped_name(function.name.as_str());
            match codegen_func(&mut ctx, name.as_str(), &function.body) {
                Err(m) => {
                    proof {
                        functions_out_failure_sticks(
                            here,
                            (k + 1) as nat,
                            program@[id as int].functions.len(),
                            row_start,
                        );
                        namespaces_out_failure_sticks(
                            s,
                            (id + 1) as nat,
                            program@.len(),
                            start,
                        );
                    }
                    return Err(m);
                },
                Ok(()) => {},
            }
            k += 1;
        }
        id += 1;
    }
    ctx.namespace = main_namespace;
    assert(ctx.setting() == s);
    match codegen_func(&mut ctx, "main_body", main) {
        Err(m) => {
            return Err(m);
        },
        Ok(()) => {},
    }
    match dialect {
        Dialect::C => ctx.target.write_raw(
            "\nint main(void) {\n  checked(main_body());\n  checked(print_stack());\n}\n",
        ),
        Dialect::Js => ctx.target.write_line(
            "try {\n  main_body()\n  printStack()\n} catch (err) {\n   console.error(err)\n}",
        ),
        Dialect::Rs => ctx.target.write_raw(
            "\nfn main() -> InterpreterResult {\n  let mut c = Interpreter::new();\n  main_body(&mut c)?;\n  c.print()?;\n  Ok(())\n}\n",
        ),
    }
    Ok(ctx.target.into_string())
}

/// The text generated for a program in a dialect, with `main` as its entry block: the
/// runtime of the dialect, and behind it the program text. `numbers` holds the text of
/// every number literal, those of the functions first, in the order of the namespaces.
/// What is generated has more than 500 characters.
pub fn codegen_module(
    program: &Program,
    dialect: Dialect,
    runtime: &Runtime,
    main_namespace: NamespaceId,
    main: &Block,
    numbers: &Vec<String>,
) -> (r: Result<String, CodegenError>)
    requires
        program_wf(program@),
        main_namespace < program@.len(),
    ensures
        match program_out(
            Setting {
                dialect,
                program: program@,
                namespace: main_namespace,
                numbers: numbers@.map_values(|n: String| n@),
            },
            runtime@,
            main@,
        ) {
            Ok(text) => r is Ok && r->Ok_0@ == text && text.len() > 500,
            Err(m) => r is Err && r->Err_0@ == m,
        },
{
    match module_text(program, dialect, main_namespace, main, numbers) {
        Ok(text) => {
            let mut out = chars_of(runtime.text());
            match dialect {
                Dialect::Js => out.push('\n'),
                _ => {},
            }
            push_str(&mut out, text.as_str());
            Ok(string_of(&out))
        },
        Err(m) => Err(m),
    }
}

/// The number literals of a term, in the order the generators meet them.
pub open spec fn term_numbers(t: TermModel) -> Seq<Number>
    decreases t, 0int,
{
    match t {
        TermModel::Number(n) => seq![n],
        TermModel::Branch(arms) => arms_numbers(arms, arms.len()),
        TermModel::Loop(pre, body, post) => (match pre {
            Some(b) => block_numbers(b, b.len()),
            None => Seq::empty(),
        }) + block_numbers(body, body.len()) + (match post {
            Some(b) => block_numbers(b, b.len()),
            None => Seq::empty(),
        }),
        _ => Seq::empty(),
    }
}

/// The number literals of the first `k` terms of a block.
pub open spec fn block_numbers(block: Seq<TermModel>, k: nat) -> Seq<Number>
    decreases block, k,
{
    if k == 0 || k > block.len() {
        Seq::empty()
    } else {
        block_numbers(block, (k - 1) as nat) + term_numbers(block[k - 1])
    }
}

/// The number literals of the first `k` arms of a branch.
pub open spec fn arms_numbers(arms: Seq<(Seq<TermModel>, Seq<TermModel>)>, k: nat) -> Seq<Number>
    decreases arms, k,
{
    if k == 0 || k > arms.len() {
        Seq::empty()
    } else {
        arms_numbers(arms, (k - 1) as nat) + block_numbers(arms[k - 1].0, arms[k - 1].0.len())
            + block_numbers(arms[k - 1].1, arms[k - 1].1.len())
    }
}

/// The number literals of the first `k` functions of a namespace.
pub open spec fn functions_numbers(n: NamespaceModel, k: nat) -> Seq<Number>
    decreases k,
{
    if k == 0 {
        Seq::empty()
    } else {
        functions_numbers(n, (k - 1) as nat) + block_numbers(
            n.functions[k - 1].body,
            n.functions[k - 1].body.len(),
        )
    }
}

/// The number literals of the first `n` namespaces of a program.
pub open spec fn program_numbers(p: Seq<NamespaceModel>, n: nat) -> Seq<Number>
    decreases n,
{
    if n == 0 {
        Seq::empty()
    } else {
        program_numbers(p, (n - 1) as nat) + functions_numbers(p[n - 1], p[n - 1].functions.len())
    }
}

fn collect_term(term: &Term, out: &mut Vec<Number>)
    ensures
        final(out)@ == old(out)@ + term_numbers(term_model(*term)),
    decreases term, 1int,
{
    match term {
        Term::Number(n) => {
            out.push(*n);
            assert(out@ =~= old(out)@ + seq![*n]);
        },
        Term::Branch(branch) => collect_branch(branch, out),
        Term::Loop(l) => {
            match &l.pre_condition {
                Some(b) => collect_block(b, out),
                None => {},
            }
            collect_block(&l.body, out);
            match &l.post_condition {
                Some(b) => collect_block(b, out),
                None => {},
            }
            assert(out@ =~= old(out)@ + term_numbers(term_model(*term)));
        },
        _ => {
            assert(out@ =~= old(out)@ + Seq::<Number>::empty());
        },
    }
}

fn collect_branch(branch: &Branch, out: &mut Vec<Number>)
    ensures
        final(out)@ == old(out)@ + arms_numbers(arms_model(branch.arms@), branch.arms@.len()),
    decreases branch, 0int,
{
    let ghost arms = arms_model(branch.arms@);
    let mut i: usize = 0;
    assert(out@ =~= old(out)@ + arms_numbers(arms, 0));
    while i < branch.arms.len()
        invariant
            i <= branch.arms.len(),
            arms == arms_model(branch.arms@),
            out@ == old(out)@ + arms_numbers(arms, i as nat),
        decreases branch.arms.len() - i,
    {
        assert(arms[i as int] == (branch.arms@[i as int].0@, branch.arms@[i as int].1@));
        collect_block(&branch.arms[i].0, out);
        collect_block(&branch.arms[i].1, out);
        i += 1;
        assert(out@ =~= old(out)@ + arms_numbers(arms, i as nat));
    }
}

fn collect_block(block: &Block, out: &mut Vec<Number>)
    ensures
        final(out)@ == old(out)@ + block_numbers(block@, block@.len()),
    decreases block, 0int,
{
    let mut i: usize = 0;
    assert(out@ =~= old(out)@ + block_numbers(block@, 0));
    while i < block.terms.len()
        invariant
            i <= block.terms.len(),
            out@ == old(out)@ + block_numbers(block@, i as nat),
        decreases block.terms.len() - i,
    {
        assert(block@[i as int] == term_model(block.terms@[i as int]));
        collect_term(&block.terms[i], out);
        i += 1;
        assert(out@ =~= old(out)@ + block_numbers(block@, i as nat));
    }
}

/// The number literals of a program and its entry block, in the order the generators
/// meet them: the host turns each into text and hands the texts to [`codegen_module`].
pub fn number_literals(program: &Program, main: &Block) -> (r: Vec<Number>)
    ensures
        r@ == program_numbers(program@, program@.len()) + block_numbers(main@, main@.len()),
{
    let mut out: Vec<Number> = Vec::new();
    let mut id: usize = 0;
    assert(out@ =~= program_numbers(program@, 0));
    while id < program.namespaces.len()
        invariant
            id <= program.namespaces.len(),
            out@ == program_numbers(program@, id as nat),
        decreases program.namespaces.len() - id,
    {
        assert(program@[id as int] == program.namespaces@[id as int]@);
        let ghost row_start = out@;
        let namespace = &program.namespaces[id];
        let mut k: usize = 0;
        assert(out@ =~= row_start + functions_numbers(namespace@, 0));
        while k < namespace.functions.len()
            invariant
                k <= namespace.functions.len(),
                out@ == row_start + functions_numbers(namespace@, k as nat),
            decreases namespace.functions.len() - k,
        {
            assert(namespace@.functions[k as int] == namespace.functions@[k as int]@);
            collect_block(&namespace.functions[k].body, &mut out);
            k += 1;
            assert(out@ =~= row_start + functions_numbers(namespace@, k as nat));
        }
        id += 1;
    }
    collect_block(main, &mut out);
    out
}

} // verus!
