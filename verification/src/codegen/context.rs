//! The state of a generator, and the walk over terms that all dialects share.
use vstd::prelude::*;
use crate::codegen::emit::{
    address_line, arms_out, block_out, bool_line, call_line, check_out, closers, deeper,
    function_out, line, name_text, number_line, scoped, shallower, string_line, term_out,
    CodegenError, Dialect, Emitted, Setting,
};
use crate::codegen::target::CodegenTarget;
use crate::intrinsics::get_intrinsic_codegen_name;
use crate::lang::ast::{arms_model, term_model, Block, Branch, Loop, Term, TermModel};
use crate::program::{program_wf, NamespaceId, Program};
use crate::text::{chars_of, decimal_chars, push_all, push_str, string_of};

verus! {

/// The result of generating code for part of a program.
pub type CodegenResult = Result<(), CodegenError>;

/// What a generator works with.
pub struct CodegenContext<'a> {
    /// The namespace whose code is being generated.
    pub namespace: NamespaceId,
    pub program: &'a Program,
    pub target: CodegenTarget,
    pub dialect: Dialect,
    /// The texts of the number literals of the program, in the order they are met.
    pub numbers: &'a Vec<String>,
    /// How many of them were written.
    pub used: usize,
}

impl<'a> CodegenContext<'a> {
    /// What generating needs to know.
    pub open spec fn setting(self) -> Setting {
        Setting {
            dialect: self.dialect,
            program: self.program@,
            namespace: self.namespace,
            numbers: self.numbers@.map_values(|n: String| n@),
        }
    }

    /// What was generated so far.
    pub open spec fn emitted(self) -> Emitted {
        Emitted { indent: self.target.indent(), text: self.target.text(), used: self.used as nat }
    }

    /// The two generators work on the same program, namespace, dialect and number texts.
    pub open spec fn same_job(self, other: CodegenContext<'a>) -> bool {
        &&& self.program == other.program
        &&& self.namespace == other.namespace
        &&& self.dialect == other.dialect
        &&& self.numbers == other.numbers
    }

    /// The program is well-formed and the namespace is one of its namespaces.
    pub open spec fn wf(self) -> bool {
        program_wf(self.program@) && self.namespace < self.program@.len()
    }

    /// A generator at the start of its output.
    pub fn new(program: &'a Program, dialect: Dialect, numbers: &'a Vec<String>) -> (r:
        CodegenContext<'a>)
        ensures
            r.program == program,
            r.dialect == dialect,
            r.numbers == numbers,
            r.namespace == 0,
            r.emitted() == (Emitted { indent: Seq::empty(), text: Seq::empty(), used: 0 }),
    {
        CodegenContext {
            namespace: 0,
            program,
            target: CodegenTarget::new(),
            dialect,
            numbers,
            used: 0,
        }
    }

    /// The name generated code gives the function `v` of the given namespace.
    pub fn scoped_name(namespace: NamespaceId, v: &str) -> (r: String)
        ensures
            r@ == scoped(namespace as nat, v@),
    {
        let mut out: Vec<char> = Vec::new();
        push_str(&mut out, "user_fn_");
        let digits = decimal_chars(namespace);
        push_all(&mut out, &digits);
        push_str(&mut out, "_");
        push_str(&mut out, v);
        assert(out@ =~= scoped(namespace as nat, v@));
        string_of(&out)
    }

    /// The name generated code gives the function `v` of the namespace being generated.
    pub fn get_scoped_name(&self, v: &str) -> (r: String)
        ensures
            r@ == scoped(self.namespace as nat, v@),
    {
        CodegenContext::scoped_name(self.namespace, v)
    }

    /// The name generated code calls `v` by, or an error when `v` names nothing.
    pub fn resolve_name(&self, v: &str) -> (r: Result<String, CodegenError>)
        requires
            self.wf(),
        ensures
            match name_text(self.program@, self.namespace, v@) {
                Ok(n) => r is Ok && r->Ok_0@ == n,
                Err(m) => r is Err && r->Err_0@ == m,
            },
    {
        match get_intrinsic_codegen_name(v) {
            Some(name) => Ok(String::from_str(name)),
            None => match self.program.resolve_function(self.namespace, v) {
                Some((namespace, index)) => {
                    assert(self.program@[namespace as int]
                        == self.program.namespaces@[namespace as int]@);
                    let function = &self.program.namespaces[namespace].functions[index];
                    assert(self.program@[namespace as int].functions[index as int] == function@);
                    Ok(CodegenContext::scoped_name(namespace, function.name.as_str()))
                },
                None => {
                    let mut out: Vec<char> = Vec::new();
                    push_str(&mut out, "Unable to resolve name: ");
                    push_str(&mut out, v);
                    Err(string_of(&out))
                },
            },
        }
    }

    /// Writes a line.
    pub fn emit(&mut self, text: &Vec<char>)
        ensures
            final(self).same_job(*old(self)),
            final(self).emitted() == line(old(self).emitted(), text@),
    {
        self.target.write_chars(text);
    }

    /// Writes a line.
    pub fn emit_str(&mut self, text: &str)
        ensures
            final(self).same_job(*old(self)),
            final(self).emitted() == line(old(self).emitted(), text@),
    {
        self.target.write_line(text);
    }

    fn indent(&mut self)
        ensures
            final(self).same_job(*old(self)),
            final(self).emitted() == deeper(old(self).emitted()),
    {
        self.target.increase_indent();
    }

    fn outdent(&mut self)
        ensures
            final(self).same_job(*old(self)),
            final(self).emitted() == shallower(old(self).emitted()),
    {
        self.target.decrease_indent();
    }
}

/// The three parts of a line around a name or a text, for each dialect.
fn around(out: &mut Vec<char>, before: &str, middle: &Vec<char>, after: &str)
    ensures
        final(out)@ == old(out)@ + before@ + middle@ + after@,
{
    push_str(out, before);
    push_all(out, middle);
    push_str(out, after);
}

fn string_text(d: Dialect, s: &String) -> (r: Vec<char>)
    ensures
        r@ == string_line(d, s@),
{
    let quoted = chars_of(crate::text::quote(s.as_str()).as_str());
    let mut out: Vec<char> = Vec::new();
    match d {
        Dialect::C => {
            around(&mut out, "checked(push_string_literal(", &quoted, ", ");
            let digits = decimal_chars(s.as_str().len());
            push_all(&mut out, &digits);
            push_str(&mut out, "));");
        },
        Dialect::Js => around(&mut out, "push(", &quoted, ")"),
        Dialect::Rs => around(&mut out, "c.push(", &quoted, ")?;"),
    }
    assert(out@ =~= string_line(d, s@));
    out
}

fn number_text(d: Dialect, text: &String) -> (r: Vec<char>)
    ensures
        r@ == number_line(d, text@),
{
    let digits = chars_of(text.as_str());
    let mut out: Vec<char> = Vec::new();
    match d {
        Dialect::C => around(&mut out, "checked(push_number_literal(", &digits, "L));"),
        Dialect::Js => around(&mut out, "push(", &digits, ")"),
        Dialect::Rs => {
            around(&mut out, "c.push(", &digits, "");
            out.push('f');
            out.push('6');
            out.push('4');
            push_str(&mut out, ")?;");
        },
    }
    proof {
        reveal_strlit("");
    }
    assert(out@ =~= number_line(d, text@));
    out
}

fn bool_text(d: Dialect, b: bool) -> (r: &'static str)
    ensures
        r@ == bool_line(d, b),
{
    match d {
        Dialect::C => if b {
            "checked(push_true_literal());"
        } else {
            "checked(push_false_literal());"
        },
        Dialect::Js => if b {
            "push(true)"
        } else {
            "push(false)"
        },
        Dialect::Rs => if b {
            "c.push(true)?;"
        } else {
            "c.push(false)?;"
        },
    }
}

fn call_text(d: Dialect, name: &String) -> (r: Vec<char>)
    ensures
        r@ == call_line(d, name@),
{
    let n = chars_of(name.as_str());
    let mut out: Vec<char> = Vec::new();
    match d {
        Dialect::C => around(&mut out, "checked(", &n, "());"),
        Dialect::Js => around(&mut out, "", &n, "()"),
        Dialect::Rs => around(&mut out, "", &n, "(c)?;"),
    }
    proof {
        reveal_strlit("");
    }
    assert(out@ =~= call_line(d, name@));
    out
}

fn address_text(d: Dialect, name: &String) -> (r: Vec<char>)
    ensures
        r@ == address_line(d, name@),
{
    let n = chars_of(name.as_str());
    let mut out: Vec<char> = Vec::new();
    match d {
        Dialect::C => around(&mut out, "checked(push_fn_address(&", &n, "));"),
        Dialect::Js => around(&mut out, "push(", &n, ")"),
        Dialect::Rs => around(&mut out, "c.push(&(", &n, " as Operation))?;"),
    }
    assert(out@ =~= address_line(d, name@));
    out
}

/// Once a term of a block has failed, nothing is generated for the block however far
/// it is read.
pub proof fn block_out_failure_sticks(
    s: Setting,
    block: Seq<TermModel>,
    i: nat,
    n: nat,
    e: Emitted,
)
    requires
        block_out(s, block, i, e) is Err,
        i <= n <= block.len(),
    ensures
        block_out(s, block, n, e) == block_out(s, block, i, e),
    decreases n,
{
    if n > i {
        block_out_failure_sticks(s, block, i, (n - 1) as nat, e);
    }
}

/// Once an arm of a branch has failed, nothing is generated for the branch.
pub proof fn arms_out_failure_sticks(
    s: Setting,
    arms: Seq<(Seq<TermModel>, Seq<TermModel>)>,
    i: nat,
    n: nat,
    e: Emitted,
)
    requires
        arms_out(s, arms, i, e) is Err,
        i <= n <= arms.len(),
    ensures
        arms_out(s, arms, n, e) == arms_out(s, arms, i, e),
    decreases n,
{
    if n > i {
        arms_out_failure_sticks(s, arms, i, (n - 1) as nat, e);
    }
}

/// Writes the test of a loop condition, when the loop has that condition.
pub fn codegen_loop_condition(ctx: &mut CodegenContext, block: &Option<Block>) -> (r: CodegenResult)
    requires
        old(ctx).wf(),
    ensures
        final(ctx).same_job(*old(ctx)),
        match check_out(
            old(ctx).setting(),
            match *block {
                Some(b) => Some(b@),
                None => None,
            },
            old(ctx).emitted(),
        ) {
            Ok(e) => r is Ok && final(ctx).emitted() == e,
            Err(m) => r is Err && r->Err_0@ == m,
        },
    decreases block, 1int,
{
    match block {
        None => Ok(()),
        Some(b) => {
            match codegen_block(ctx, b) {
                Err(m) => {
                    return Err(m);
                },
                Ok(()) => {},
            }
            match ctx.dialect {
                Dialect::C => {
                    ctx.emit_str("{");
                    ctx.indent();
                    ctx.emit_str("int c;");
                    ctx.emit_str("checked(check_condition(&c));");
                    ctx.emit_str("if (!c) {");
                    ctx.emit_str("  break;");
                    ctx.emit_str("}");
                    ctx.outdent();
                    ctx.emit_str("}");
                },
                Dialect::Js => {
                    ctx.emit_str("if (!checkCondition()) {");
                    ctx.emit_str("  break");
                    ctx.emit_str("}");
                },
                Dialect::Rs => {
                    ctx.emit_str("if !c.check_condition()? { break }");
                },
            }
            Ok(())
        },
    }
}

/// Writes a loop.
pub fn codegen_loop(ctx: &mut CodegenContext, loop_t: &Loop) -> (r: CodegenResult)
    requires
        old(ctx).wf(),
    ensures
        final(ctx).same_job(*old(ctx)),
        match term_out(old(ctx).setting(), term_model(Term::Loop(*loop_t)), old(ctx).emitted()) {
            Ok(e) => r is Ok && final(ctx).emitted() == e,
            Err(m) => r is Err && r->Err_0@ == m,
        },
    decreases loop_t, 2int,
{
    match ctx.dialect {
        Dialect::Rs => ctx.emit_str("loop {"),
        _ => ctx.emit_str("while (1) {"),
    }
    ctx.indent();
    match codegen_loop_condition(ctx, &loop_t.pre_condition) {
        Err(m) => {
            return Err(m);
        },
        Ok(()) => {},
    }
    match codegen_block(ctx, &loop_t.body) {
        Err(m) => {
            return Err(m);
        },
        Ok(()) => {},
    }
    match codegen_loop_condition(ctx, &loop_t.post_condition) {
        Err(m) => {
            return Err(m);
        },
        Ok(()) => {},
    }
    ctx.outdent();
    ctx.emit_str("}");
    Ok(())
}

fn codegen_branch(ctx: &mut CodegenContext, branch: &Branch) -> (r: CodegenResult)
    requires
        old(ctx).wf(),
    ensures
        final(ctx).same_job(*old(ctx)),
        match term_out(
            old(ctx).setting(),
            TermModel::Branch(arms_model(branch.arms@)),
            old(ctx).emitted(),
        ) {
            Ok(e) => r is Ok && final(ctx).emitted() == e,
            Err(m) => r is Err && r->Err_0@ == m,
        },
    decreases branch, 2int,
{
    let ghost s = ctx.setting();
    let ghost start = ctx.emitted();
    let ghost arms = arms_model(branch.arms@);
    let mut i: usize = 0;
    while i < branch.arms.len()
        invariant
            i <= branch.arms.len(),
            ctx.wf(),
            ctx.setting() == s,
            ctx.same_job(*old(ctx)),
            s == old(ctx).setting(),
            start == old(ctx).emitted(),
            arms == arms_model(branch.arms@),
            arms_out(s, arms, i as nat, start) == Ok::<Emitted, Seq<char>>(ctx.emitted()),
        decreases branch.arms.len() - i,
    {
        assert(arms[i as int] == (branch.arms@[i as int].0@, branch.arms@[i as int].1@));
        match codegen_block(ctx, &branch.arms[i].0) {
            Err(m) => {
                proof {
                    arms_out_failure_sticks(s, arms, (i + 1) as nat, arms.len(), start);
                }
                return Err(m);
            },
            Ok(()) => {},
        }
        match ctx.dialect {
            Dialect::C => {
                ctx.emit_str("int c;");
                ctx.emit_str("checked(check_condition(&c));");
                ctx.emit_str("if (c) {");
            },
            Dialect::Js => ctx.emit_str("if (checkCondition()) {"),
            Dialect::Rs => ctx.emit_str("if c.check_condition()? {"),
        }
        ctx.indent();
        match codegen_block(ctx, &branch.arms[i].1) {
            Err(m) => {
                proof {
                    arms_out_failure_sticks(s, arms, (i + 1) as nat, arms.len(), start);
                }
                return Err(m);
            },
            Ok(()) => {},
        }
        ctx.outdent();
        ctx.emit_str("} else {");
        ctx.indent();
        i += 1;
    }
    let ghost opened = ctx.emitted();
    let mut k: usize = 0;
    while k < branch.arms.len()
        invariant
            k <= branch.arms.len(),
            ctx.setting() == s,
            ctx.same_job(*old(ctx)),
            ctx.emitted() == closers(opened, k as nat),
        decreases branch.arms.len() - k,
    {
        ctx.outdent();
        ctx.emit_str("}");
        k += 1;
    }
    Ok(())
}

/// Writes one term.
pub fn codegen_term(ctx: &mut CodegenContext, term: &Term) -> (r: CodegenResult)
    requires
        old(ctx).wf(),
    ensures
        final(ctx).same_job(*old(ctx)),
        match term_out(old(ctx).setting(), term_model(*term), old(ctx).emitted()) {
            Ok(e) => r is Ok && final(ctx).emitted() == e,
            Err(m) => r is Err && r->Err_0@ == m,
        },
    decreases term, 3int,
{
    match term {
        Term::String(e) => {
            let text = string_text(ctx.dialect, e);
            ctx.emit(&text);
            Ok(())
        },
        Term::Number(_) => {
            if ctx.used < ctx.numbers.len() {
                let text = number_text(ctx.dialect, &ctx.numbers[ctx.used]);
                assert(ctx.setting().numbers[ctx.used as int] == ctx.numbers@[ctx.used as int]@);
                ctx.used = ctx.used + 1;
                ctx.emit(&text);
                Ok(())
            } else {
                Err(String::from_str("Missing text for a number literal"))
            }
        },
        Term::Bool(b) => {
            ctx.emit_str(bool_text(ctx.dialect, *b));
            Ok(())
        },
        Term::Name(n, _) => match ctx.resolve_name(n.as_str()) {
            Ok(name) => {
                let text = call_text(ctx.dialect, &name);
                ctx.emit(&text);
                Ok(())
            },
            Err(m) => Err(m),
        },
        Term::Address(n) => match ctx.resolve_name(n.as_str()) {
            Ok(name) => {
                let text = address_text(ctx.dialect, &name);
                ctx.emit(&text);
                Ok(())
            },
            Err(m) => Err(m),
        },
        Term::Capture(_, _) => Err(String::from_str("Capture variables cannot be generated")),
        Term::Branch(branch) => codegen_branch(ctx, branch),
        Term::Loop(loop_t) => codegen_loop(ctx, loop_t),
    }
}

/// Writes the terms of a block.
pub fn codegen_block(ctx: &mut CodegenContext, block: &Block) -> (r: CodegenResult)
    requires
        old(ctx).wf(),
    ensures
        final(ctx).same_job(*old(ctx)),
        match block_out(old(ctx).setting(), block@, block@.len(), old(ctx).emitted()) {
            Ok(e) => r is Ok && final(ctx).emitted() == e,
            Err(m) => r is Err && r->Err_0@ == m,
        },
    decreases block, 0int,
{
    let ghost s = ctx.setting();
    let ghost start = ctx.emitted();
    let mut i: usize = 0;
    while i < block.terms.len()
        invariant
            i <= block.terms.len(),
            ctx.wf(),
            ctx.setting() == s,
            ctx.same_job(*old(ctx)),
            s == old(ctx).setting(),
            start == old(ctx).emitted(),
            block_out(s, block@, i as nat, start) == Ok::<Emitted, Seq<char>>(ctx.emitted()),
        decreases block.terms.len() - i,
    {
        assert(block@[i as int] == term_model(block.terms@[i as int]));
        match codegen_term(ctx, &block.terms[i]) {
            Err(m) => {
                proof {
                    block_out_failure_sticks(s, block@, (i + 1) as nat, block@.len(), start);
                }
                return Err(m);
            },
            Ok(()) => {},
        }
        i += 1;
    }
    Ok(())
}

/// Writes a function under the given name.
pub fn codegen_func(ctx: &mut CodegenContext, name: &str, body: &Block) -> (r: CodegenResult)
    requires
        old(ctx).wf(),
    ensures
        final(ctx).same_job(*old(ctx)),
        match function_out(old(ctx).setting(), name@, body@, old(ctx).emitted()) {
            Ok(e) => r is Ok && final(ctx).emitted() == e,
            Err(m) => r is Err && r->Err_0@ == m,
        },
{
    let n = chars_of(name);
    let mut head: Vec<char> = Vec::new();
    match ctx.dialect {
        Dialect::C => {
            if body.terms.len() == 0 {
                around(&mut head, "status_t ", &n, "(void) { return OK; }");
                assert(head@ =~= "status_t "@ + name@ + "(void) { return OK; }"@);
                ctx.emit(&head);
                return Ok(());
            }
            around(&mut head, "status_t ", &n, "(void) {");
            assert(head@ =~= "status_t "@ + name@ + "(void) {"@);
        },
        Dialect::Js => {
            around(&mut head, "function ", &n, "() {");
            assert(head@ =~= "function "@ + name@ + "() {"@);
        },
        Dialect::Rs => {
            around(&mut head, "fn ", &n, "(c: &mut Interpreter) -> InterpreterResult {");
            assert(head@ =~= "fn "@ + name@ + "(c: &mut Interpreter) -> InterpreterResult {"@);
        },
    }
    ctx.emit(&head);
    ctx.indent();
    match codegen_block(ctx, body) {
        Err(m) => {
            return Err(m);
        },
        Ok(()) => {},
    }
    match ctx.dialect {
        Dialect::C => ctx.emit_str("return OK;"),
        Dialect::Js => {},
        Dialect::Rs => ctx.emit_str("Ok(())"),
    }
    ctx.outdent();
    ctx.emit_str("}");
    Ok(())
}

} // verus!
