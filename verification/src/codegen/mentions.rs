//! Generated text only grows, and it names every function and operation the program uses.
use vstd::prelude::*;
use crate::codegen::emit::{
    address_line, arms_out, block_out, break_lines, call_line, check_out, closers, deeper,
    function_out, line, loop_open, name_text, scoped, shallower, term_out, test_lines, Dialect,
    Emitted, Setting,
};
use crate::codegen::module::{
    closing, functions_out, in_namespace, module_out, namespaces_out, opening, program_out, seam,
};
use crate::intrinsics::{intrinsic_alias, intrinsic_found_by_name, intrinsic_name, Intrinsic};
use crate::lang::ast::TermModel;

verus! {

/// `piece` stands in `text` at offset `i`.
pub open spec fn stands_at(text: Seq<char>, piece: Seq<char>, i: int) -> bool {
    0 <= i && i + piece.len() <= text.len() && text.subrange(i, i + piece.len()) == piece
}

/// `piece` stands somewhere in `text`.
pub open spec fn mentions(text: Seq<char>, piece: Seq<char>) -> bool {
    exists|i: int| stands_at(text, piece, i)
}

/// `new` starts with `old`.
pub open spec fn extends(old: Seq<char>, new: Seq<char>) -> bool {
    old.len() <= new.len() && new.subrange(0, old.len() as int) == old
}

/// What stands in a text stands in every text that starts with it.
pub proof fn mention_survives(old: Seq<char>, new: Seq<char>, piece: Seq<char>)
    requires
        extends(old, new),
        mentions(old, piece),
    ensures
        mentions(new, piece),
{
    let i = choose|i: int| stands_at(old, piece, i);
    assert(new.subrange(i, i + piece.len()) =~= old.subrange(i, i + piece.len()));
    assert(stands_at(new, piece, i));
}

/// What stands in the middle part of a text stands in the text.
pub proof fn mention_in_middle(a: Seq<char>, b: Seq<char>, c: Seq<char>, piece: Seq<char>)
    requires
        mentions(b, piece),
    ensures
        mentions(a + b + c, piece),
{
    let i = choose|i: int| stands_at(b, piece, i);
    let all = a + b + c;
    assert(all.subrange(a.len() + i, a.len() + i + piece.len()) =~= b.subrange(
        i,
        i + piece.len(),
    ));
    assert(stands_at(all, piece, a.len() + i));
}

/// Starting with is transitive.
pub proof fn extends_twice(a: Seq<char>, b: Seq<char>, c: Seq<char>)
    requires
        extends(a, b),
        extends(b, c),
    ensures
        extends(a, c),
{
    assert(c.subrange(0, a.len() as int) =~= b.subrange(0, a.len() as int));
}

/// A line adds to the text, and what stands in the line stands in the text.
pub proof fn line_grows(e: Emitted, s: Seq<char>)
    ensures
        extends(e.text, line(e, s).text),
{
    assert(line(e, s).text.subrange(0, e.text.len() as int) =~= e.text);
}

/// What stands in a line that was written stands in the text.
pub proof fn line_mentions(e: Emitted, s: Seq<char>, piece: Seq<char>)
    requires
        mentions(s, piece),
    ensures
        mentions(line(e, s).text, piece),
{
    mention_in_middle(e.text + e.indent, s, seq!['\n'], piece);
    assert(line(e, s).text =~= (e.text + e.indent) + s + seq!['\n']);
}

/// The line that calls a name, and the line that takes its address, hold the name.
pub proof fn name_lines_mention(d: Dialect, name: Seq<char>)
    ensures
        mentions(call_line(d, name), name),
        mentions(address_line(d, name), name),
{
    let none = Seq::<char>::empty();
    assert(stands_at(name, name, 0)) by {
        assert(name.subrange(0, name.len() as int) =~= name);
    }
    match d {
        Dialect::C => {
            mention_in_middle("checked("@, name, "());"@, name);
            mention_in_middle("checked(push_fn_address(&"@, name, "));"@, name);
        },
        Dialect::Js => {
            mention_in_middle(none, name, "()"@, name);
            assert(none + name + "()"@ =~= name + "()"@);
            mention_in_middle("push("@, name, ")"@, name);
        },
        Dialect::Rs => {
            mention_in_middle(none, name, "(c)?;"@, name);
            assert(none + name + "(c)?;"@ =~= name + "(c)?;"@);
            mention_in_middle("c.push(&("@, name, " as Operation))?;"@, name);
        },
    }
}

/// The lines that test a condition add to the text.
pub proof fn test_lines_grow(d: Dialect, e: Emitted)
    ensures
        extends(e.text, test_lines(d, e).text),
{
    match d {
        Dialect::C => {
            let e1 = line(e, "int c;"@);
            let e2 = line(e1, "checked(check_condition(&c));"@);
            line_grows(e, "int c;"@);
            line_grows(e1, "checked(check_condition(&c));"@);
            line_grows(e2, "if (c) {"@);
            extends_twice(e.text, e1.text, e2.text);
            extends_twice(e.text, e2.text, test_lines(d, e).text);
        },
        Dialect::Js => line_grows(e, "if (checkCondition()) {"@),
        Dialect::Rs => line_grows(e, "if c.check_condition()? {"@),
    }
}

/// The lines that leave a loop add to the text.
pub proof fn break_lines_grow(d: Dialect, e: Emitted)
    ensures
        extends(e.text, break_lines(d, e).text),
{
    match d {
        Dialect::C => {
            let e1 = deeper(line(e, "{"@));
            let e2 = line(e1, "int c;"@);
            let e3 = line(e2, "checked(check_condition(&c));"@);
            let e4 = line(e3, "if (!c) {"@);
            let e5 = line(e4, "  break;"@);
            let e6 = shallower(line(e5, "}"@));
            line_grows(e, "{"@);
            line_grows(e1, "int c;"@);
            line_grows(e2, "checked(check_condition(&c));"@);
            line_grows(e3, "if (!c) {"@);
            line_grows(e4, "  break;"@);
            line_grows(e5, "}"@);
            line_grows(e6, "}"@);
            extends_twice(e.text, e1.text, e2.text);
            extends_twice(e.text, e2.text, e3.text);
            extends_twice(e.text, e3.text, e4.text);
            extends_twice(e.text, e4.text, e5.text);
            extends_twice(e.text, e5.text, e6.text);
            extends_twice(e.text, e6.text, break_lines(d, e).text);
        },
        Dialect::Js => {
            let e1 = line(e, "if (!checkCondition()) {"@);
            let e2 = line(e1, "  break"@);
            line_grows(e, "if (!checkCondition()) {"@);
            line_grows(e1, "  break"@);
            line_grows(e2, "}"@);
            extends_twice(e.text, e1.text, e2.text);
            extends_twice(e.text, e2.text, break_lines(d, e).text);
        },
        Dialect::Rs => line_grows(e, "if !c.check_condition()? { break }"@),
    }
}

/// The closing lines of a branch add to the text.
pub proof fn closers_grow(e: Emitted, k: nat)
    ensures
        extends(e.text, closers(e, k).text),
    decreases k,
{
    if k == 0 {
        assert(e.text.subrange(0, e.text.len() as int) =~= e.text);
    } else {
        closers_grow(e, (k - 1) as nat);
        let e1 = shallower(closers(e, (k - 1) as nat));
        line_grows(e1, "}"@);
        extends_twice(e.text, e1.text, closers(e, k).text);
    }
}

/// What is generated for a term adds to the text.
pub proof fn term_grows(s: Setting, t: TermModel, e: Emitted)
    requires
        term_out(s, t, e) is Ok,
    ensures
        extends(e.text, term_out(s, t, e)->Ok_0.text),
    decreases t, 0int,
{
    let out = term_out(s, t, e)->Ok_0;
    match t {
        TermModel::String(x) => line_grows(e, crate::codegen::emit::string_line(s.dialect, x)),
        TermModel::Number(_) => line_grows(
            Emitted { indent: e.indent, text: e.text, used: e.used + 1 },
            crate::codegen::emit::number_line(s.dialect, s.numbers[e.used as int]),
        ),
        TermModel::Bool(b) => line_grows(e, crate::codegen::emit::bool_line(s.dialect, b)),
        TermModel::Name(n, _) => line_grows(
            e,
            call_line(s.dialect, name_text(s.program, s.namespace, n)->Ok_0),
        ),
        TermModel::Address(n) => line_grows(
            e,
            address_line(s.dialect, name_text(s.program, s.namespace, n)->Ok_0),
        ),
        TermModel::Capture(_, _) => {},
        TermModel::Branch(arms) => {
            arms_grow(s, arms, arms.len(), e);
            let e2 = arms_out(s, arms, arms.len(), e)->Ok_0;
            closers_grow(e2, arms.len());
            extends_twice(e.text, e2.text, out.text);
        },
        TermModel::Loop(pre, body, post) => {
            let e1 = deeper(line(e, loop_open(s.dialect)));
            line_grows(e, loop_open(s.dialect));
            check_grows(s, pre, e1);
            let e2 = check_out(s, pre, e1)->Ok_0;
            block_grows(s, body, body.len(), e2);
            let e3 = block_out(s, body, body.len(), e2)->Ok_0;
            check_grows(s, post, e3);
            let e4 = check_out(s, post, e3)->Ok_0;
            line_grows(shallower(e4), "}"@);
            extends_twice(e.text, e1.text, e2.text);
            extends_twice(e.text, e2.text, e3.text);
            extends_twice(e.text, e3.text, e4.text);
            extends_twice(e.text, e4.text, out.text);
        },
    }
}

/// What is generated for a block adds to the text.
pub proof fn block_grows(s: Setting, block: Seq<TermModel>, k: nat, e: Emitted)
    requires
        block_out(s, block, k, e) is Ok,
    ensures
        extends(e.text, block_out(s, block, k, e)->Ok_0.text),
    decreases block, k,
{
    if k == 0 || k > block.len() {
        assert(e.text.subrange(0, e.text.len() as int) =~= e.text);
    } else {
        block_grows(s, block, (k - 1) as nat, e);
        let e1 = block_out(s, block, (k - 1) as nat, e)->Ok_0;
        term_grows(s, block[k - 1], e1);
        extends_twice(e.text, e1.text, block_out(s, block, k, e)->Ok_0.text);
    }
}

/// What is generated for a loop condition adds to the text.
pub proof fn check_grows(s: Setting, cond: Option<Seq<TermModel>>, e: Emitted)
    requires
        check_out(s, cond, e) is Ok,
    ensures
        extends(e.text, check_out(s, cond, e)->Ok_0.text),
    decreases cond, 1int,
{
    match cond {
        None => {
            assert(e.text.subrange(0, e.text.len() as int) =~= e.text);
        },
        Some(b) => {
            block_grows(s, b, b.len(), e);
            let e1 = block_out(s, b, b.len(), e)->Ok_0;
            break_lines_grow(s.dialect, e1);
            extends_twice(e.text, e1.text, check_out(s, cond, e)->Ok_0.text);
        },
    }
}

/// What is generated for the arms of a branch adds to the text.
pub proof fn arms_grow(
    s: Setting,
    arms: Seq<(Seq<TermModel>, Seq<TermModel>)>,
    k: nat,
    e: Emitted,
)
    requires
        arms_out(s, arms, k, e) is Ok,
    ensures
        extends(e.text, arms_out(s, arms, k, e)->Ok_0.text),
    decreases arms, k,
{
    if k == 0 || k > arms.len() {
        assert(e.text.subrange(0, e.text.len() as int) =~= e.text);
    } else {
        arms_grow(s, arms, (k - 1) as nat, e);
        let e1 = arms_out(s, arms, (k - 1) as nat, e)->Ok_0;
        block_grows(s, arms[k - 1].0, arms[k - 1].0.len(), e1);
        let e2 = block_out(s, arms[k - 1].0, arms[k - 1].0.len(), e1)->Ok_0;
        test_lines_grow(s.dialect, e2);
        let e2t = deeper(test_lines(s.dialect, e2));
        block_grows(s, arms[k - 1].1, arms[k - 1].1.len(), e2t);
        let e3 = block_out(s, arms[k - 1].1, arms[k - 1].1.len(), e2t)->Ok_0;
        line_grows(shallower(e3), "} else {"@);
        let out = arms_out(s, arms, k, e)->Ok_0;
        extends_twice(e.text, e1.text, e2.text);
        extends_twice(e.text, e2.text, e2t.text);
        extends_twice(e.text, e2t.text, e3.text);
        extends_twice(e.text, e3.text, out.text);
    }
}

/// The term calls `name` or takes its address, itself or in a block inside it.
pub open spec fn term_uses(t: TermModel, name: Seq<char>) -> bool
    decreases t, 0int,
{
    match t {
        TermModel::Name(n, _) => n == name,
        TermModel::Address(n) => n == name,
        TermModel::Branch(arms) => arms_use(arms, arms.len(), name),
        TermModel::Loop(pre, body, post) => (match pre {
            Some(b) => block_uses(b, b.len(), name),
            None => false,
        }) || block_uses(body, body.len(), name) || (match post {
            Some(b) => block_uses(b, b.len(), name),
            None => false,
        }),
        _ => false,
    }
}

/// One of the first `k` terms of the block uses `name`.
pub open spec fn block_uses(block: Seq<TermModel>, k: nat, name: Seq<char>) -> bool
    decreases block, k,
{
    0 < k <= block.len() && (term_uses(block[k - 1], name) || block_uses(
        block,
        (k - 1) as nat,
        name,
    ))
}

/// One of the first `k` arms of the branch uses `name`.
pub open spec fn arms_use(arms: Seq<(Seq<TermModel>, Seq<TermModel>)>, k: nat, name: Seq<char>) -> bool
    decreases arms, k,
{
    0 < k <= arms.len() && (block_uses(arms[k - 1].0, arms[k - 1].0.len(), name) || block_uses(
        arms[k - 1].1,
        arms[k - 1].1.len(),
        name,
    ) || arms_use(arms, (k - 1) as nat, name))
}

/// What is generated for a term holds the generated name of every name the term uses.
pub proof fn term_mentions(s: Setting, t: TermModel, e: Emitted, name: Seq<char>)
    requires
        term_out(s, t, e) is Ok,
        term_uses(t, name),
    ensures
        name_text(s.program, s.namespace, name) is Ok,
        mentions(term_out(s, t, e)->Ok_0.text, name_text(s.program, s.namespace, name)->Ok_0),
    decreases t, 0int,
{
    let out = term_out(s, t, e)->Ok_0;
    match t {
        TermModel::Name(n, _) => {
            let x = name_text(s.program, s.namespace, n)->Ok_0;
            name_lines_mention(s.dialect, x);
            line_mentions(e, call_line(s.dialect, x), x);
        },
        TermModel::Address(n) => {
            let x = name_text(s.program, s.namespace, n)->Ok_0;
            name_lines_mention(s.dialect, x);
            line_mentions(e, address_line(s.dialect, x), x);
        },
        TermModel::Branch(arms) => {
            arms_mention(s, arms, arms.len(), e, name);
            let e2 = arms_out(s, arms, arms.len(), e)->Ok_0;
            closers_grow(e2, arms.len());
            mention_survives(e2.text, out.text, name_text(s.program, s.namespace, name)->Ok_0);
        },
        TermModel::Loop(pre, body, post) => {
            let e1 = deeper(line(e, loop_open(s.dialect)));
            let e2 = check_out(s, pre, e1)->Ok_0;
            let e3 = block_out(s, body, body.len(), e2)->Ok_0;
            let e4 = check_out(s, post, e3)->Ok_0;
            check_grows(s, post, e3);
            block_grows(s, body, body.len(), e2);
            line_grows(shallower(e4), "}"@);
            if pre is Some && block_uses(pre->0, pre->0.len(), name) {
                let b = pre->0;
                block_mentions(s, b, b.len(), e1, name);
                let x = name_text(s.program, s.namespace, name)->Ok_0;
                let m = block_out(s, b, b.len(), e1)->Ok_0;
                break_lines_grow(s.dialect, m);
                mention_survives(m.text, e2.text, x);
                mention_survives(e2.text, e3.text, x);
                mention_survives(e3.text, e4.text, x);
                mention_survives(e4.text, out.text, x);
            } else if block_uses(body, body.len(), name) {
                block_mentions(s, body, body.len(), e2, name);
                let x = name_text(s.program, s.namespace, name)->Ok_0;
                mention_survives(e3.text, e4.text, x);
                mention_survives(e4.text, out.text, x);
            } else {
                let b = post->0;
                block_mentions(s, b, b.len(), e3, name);
                let x = name_text(s.program, s.namespace, name)->Ok_0;
                let m = block_out(s, b, b.len(), e3)->Ok_0;
                break_lines_grow(s.dialect, m);
                mention_survives(m.text, e4.text, x);
                mention_survives(e4.text, out.text, x);
            }
        },
        _ => {},
    }
}

/// What is generated for a block holds the generated name of every name the block uses.
pub proof fn block_mentions(s: Setting, block: Seq<TermModel>, k: nat, e: Emitted, name: Seq<char>)
    requires
        block_out(s, block, k, e) is Ok,
        block_uses(block, k, name),
    ensures
        name_text(s.program, s.namespace, name) is Ok,
        mentions(
            block_out(s, block, k, e)->Ok_0.text,
            name_text(s.program, s.namespace, name)->Ok_0,
        ),
    decreases block, k,
{
    let e1 = block_out(s, block, (k - 1) as nat, e)->Ok_0;
    if term_uses(block[k - 1], name) {
        term_mentions(s, block[k - 1], e1, name);
    } else {
        block_mentions(s, block, (k - 1) as nat, e, name);
        term_grows(s, block[k - 1], e1);
        mention_survives(
            e1.text,
            block_out(s, block, k, e)->Ok_0.text,
            name_text(s.program, s.namespace, name)->Ok_0,
        );
    }
}

/// What is generated for the arms of a branch holds the generated name of every name
/// the arms use.
pub proof fn arms_mention(
    s: Setting,
    arms: Seq<(Seq<TermModel>, Seq<TermModel>)>,
    k: nat,
    e: Emitted,
    name: Seq<char>,
)
    requires
        arms_out(s, arms, k, e) is Ok,
        arms_use(arms, k, name),
    ensures
        name_text(s.program, s.namespace, name) is Ok,
        mentions(
            arms_out(s, arms, k, e)->Ok_0.text,
            name_text(s.program, s.namespace, name)->Ok_0,
        ),
    decreases arms, k,
{
    let e1 = arms_out(s, arms, (k - 1) as nat, e)->Ok_0;
    let cond = arms[k - 1].0;
    let body = arms[k - 1].1;
    let e2 = block_out(s, cond, cond.len(), e1)->Ok_0;
    let e2t = deeper(test_lines(s.dialect, e2));
    let e3 = block_out(s, body, body.len(), e2t)->Ok_0;
    let out = arms_out(s, arms, k, e)->Ok_0;
    block_grows(s, cond, cond.len(), e1);
    test_lines_grow(s.dialect, e2);
    block_grows(s, body, body.len(), e2t);
    line_grows(shallower(e3), "} else {"@);
    if block_uses(cond, cond.len(), name) {
        block_mentions(s, cond, cond.len(), e1, name);
        let x = name_text(s.program, s.namespace, name)->Ok_0;
        mention_survives(e2.text, e2t.text, x);
        mention_survives(e2t.text, e3.text, x);
        mention_survives(e3.text, out.text, x);
    } else if block_uses(body, body.len(), name) {
        block_mentions(s, body, body.len(), e2t, name);
        let x = name_text(s.program, s.namespace, name)->Ok_0;
        mention_survives(e3.text, out.text, x);
    } else {
        arms_mention(s, arms, (k - 1) as nat, e, name);
        let x = name_text(s.program, s.namespace, name)->Ok_0;
        mention_survives(e1.text, e2.text, x);
        mention_survives(e2.text, e2t.text, x);
        mention_survives(e2t.text, e3.text, x);
        mention_survives(e3.text, out.text, x);
    }
}

/// What is generated for a function adds to the text.
pub proof fn function_grows(s: Setting, name: Seq<char>, body: Seq<TermModel>, e: Emitted)
    requires
        function_out(s, name, body, e) is Ok,
    ensures
        extends(e.text, function_out(s, name, body, e)->Ok_0.text),
{
    let out = function_out(s, name, body, e)->Ok_0;
    match s.dialect {
        Dialect::C => {
            if body.len() == 0 {
                line_grows(e, "status_t "@ + name + "(void) { return OK; }"@);
            } else {
                let head = "status_t "@ + name + "(void) {"@;
                line_grows(e, head);
                let e0 = deeper(line(e, head));
                block_grows(s, body, body.len(), e0);
                let e1 = block_out(s, body, body.len(), e0)->Ok_0;
                line_grows(e1, "return OK;"@);
                let e2 = shallower(line(e1, "return OK;"@));
                line_grows(e2, "}"@);
                extends_twice(e.text, e0.text, e1.text);
                extends_twice(e.text, e1.text, e2.text);
                extends_twice(e.text, e2.text, out.text);
            }
        },
        Dialect::Js => {
            let head = "function "@ + name + "() {"@;
            line_grows(e, head);
            let e0 = deeper(line(e, head));
            block_grows(s, body, body.len(), e0);
            let e1 = block_out(s, body, body.len(), e0)->Ok_0;
            line_grows(shallower(e1), "}"@);
            extends_twice(e.text, e0.text, e1.text);
            extends_twice(e.text, e1.text, out.text);
        },
        Dialect::Rs => {
            let head = "fn "@ + name + "(c: &mut Interpreter) -> InterpreterResult {"@;
            line_grows(e, head);
            let e0 = deeper(line(e, head));
            block_grows(s, body, body.len(), e0);
            let e1 = block_out(s, body, body.len(), e0)->Ok_0;
            line_grows(e1, "Ok(())"@);
            let e2 = shallower(line(e1, "Ok(())"@));
            line_grows(e2, "}"@);
            extends_twice(e.text, e0.text, e1.text);
            extends_twice(e.text, e1.text, e2.text);
            extends_twice(e.text, e2.text, out.text);
        },
    }
}

/// What is generated for a function holds the generated name of every name its body uses.
pub proof fn function_mentions(
    s: Setting,
    name: Seq<char>,
    body: Seq<TermModel>,
    e: Emitted,
    used: Seq<char>,
)
    requires
        function_out(s, name, body, e) is Ok,
        block_uses(body, body.len(), used),
    ensures
        name_text(s.program, s.namespace, used) is Ok,
        mentions(
            function_out(s, name, body, e)->Ok_0.text,
            name_text(s.program, s.namespace, used)->Ok_0,
        ),
{
    let out = function_out(s, name, body, e)->Ok_0;
    match s.dialect {
        Dialect::C => {
            let e0 = deeper(line(e, "status_t "@ + name + "(void) {"@));
            block_mentions(s, body, body.len(), e0, used);
            let x = name_text(s.program, s.namespace, used)->Ok_0;
            let e1 = block_out(s, body, body.len(), e0)->Ok_0;
            line_grows(e1, "return OK;"@);
            let e2 = shallower(line(e1, "return OK;"@));
            line_grows(e2, "}"@);
            mention_survives(e1.text, e2.text, x);
            mention_survives(e2.text, out.text, x);
        },
        Dialect::Js => {
            let e0 = deeper(line(e, "function "@ + name + "() {"@));
            block_mentions(s, body, body.len(), e0, used);
            let x = name_text(s.program, s.namespace, used)->Ok_0;
            let e1 = block_out(s, body, body.len(), e0)->Ok_0;
            line_grows(shallower(e1), "}"@);
            mention_survives(e1.text, out.text, x);
        },
        Dialect::Rs => {
            let e0 = deeper(
                line(e, "fn "@ + name + "(c: &mut Interpreter) -> InterpreterResult {"@),
            );
            block_mentions(s, body, body.len(), e0, used);
            let x = name_text(s.program, s.namespace, used)->Ok_0;
            let e1 = block_out(s, body, body.len(), e0)->Ok_0;
            line_grows(e1, "Ok(())"@);
            let e2 = shallower(line(e1, "Ok(())"@));
            line_grows(e2, "}"@);
            mention_survives(e1.text, e2.text, x);
            mention_survives(e2.text, out.text, x);
        },
    }
}

/// What is generated for the functions of a namespace adds to the text.
pub proof fn functions_grow(s: Setting, k: nat, e: Emitted)
    requires
        functions_out(s, k, e) is Ok,
    ensures
        extends(e.text, functions_out(s, k, e)->Ok_0.text),
    decreases k,
{
    if k == 0 {
        assert(e.text.subrange(0, e.text.len() as int) =~= e.text);
    } else {
        functions_grow(s, (k - 1) as nat, e);
        let e1 = functions_out(s, (k - 1) as nat, e)->Ok_0;
        let f = s.program[s.namespace as int].functions[k - 1];
        function_grows(s, scoped(s.namespace as nat, f.name), f.body, e1);
        extends_twice(e.text, e1.text, functions_out(s, k, e)->Ok_0.text);
    }
}

/// What is generated for the namespaces of a program adds to the text.
pub proof fn namespaces_grow(s: Setting, n: nat, e: Emitted)
    requires
        namespaces_out(s, n, e) is Ok,
    ensures
        extends(e.text, namespaces_out(s, n, e)->Ok_0.text),
    decreases n,
{
    if n == 0 {
        assert(e.text.subrange(0, e.text.len() as int) =~= e.text);
    } else {
        namespaces_grow(s, (n - 1) as nat, e);
        let e1 = namespaces_out(s, (n - 1) as nat, e)->Ok_0;
        functions_grow(in_namespace(s, (n - 1) as usize), s.program[n - 1].functions.len(), e1);
        extends_twice(e.text, e1.text, namespaces_out(s, n, e)->Ok_0.text);
    }
}

/// What ends a program adds to the text.
pub proof fn closing_grows(d: Dialect, e: Emitted)
    ensures
        extends(e.text, closing(d, e)),
{
    match d {
        Dialect::Js => line_grows(
            e,
            "try {\n  main_body()\n  printStack()\n} catch (err) {\n   console.error(err)\n}"@,
        ),
        _ => {
            assert(closing(d, e).subrange(0, e.text.len() as int) =~= e.text);
        },
    }
}

/// A program that was generated holds the alias of every built-in operation that its
/// entry block uses.
pub proof fn generated_code_mentions_intrinsics(s: Setting, main: Seq<TermModel>, i: Intrinsic)
    requires
        module_out(s, main) is Ok,
        block_uses(main, main.len(), intrinsic_name(i)),
    ensures
        mentions(module_out(s, main)->Ok_0, intrinsic_alias(i)),
{
    intrinsic_found_by_name(i);
    let e1 = namespaces_out(s, s.program.len(), opening(s))->Ok_0;
    function_mentions(s, "main_body"@, main, e1, intrinsic_name(i));
    let e2 = function_out(s, "main_body"@, main, e1)->Ok_0;
    closing_grows(s.dialect, e2);
    mention_survives(e2.text, module_out(s, main)->Ok_0, intrinsic_alias(i));
}

/// A program that was generated holds the alias of every built-in operation that one
/// of the functions of the program uses.
pub proof fn generated_functions_mention_intrinsics(
    s: Setting,
    main: Seq<TermModel>,
    ns: int,
    f: int,
    i: Intrinsic,
)
    requires
        module_out(s, main) is Ok,
        0 <= ns < s.program.len(),
        0 <= f < s.program[ns].functions.len(),
        s.program.len() <= usize::MAX,
        block_uses(
            s.program[ns].functions[f].body,
            s.program[ns].functions[f].body.len(),
            intrinsic_name(i),
        ),
    ensures
        mentions(module_out(s, main)->Ok_0, intrinsic_alias(i)),
{
    intrinsic_found_by_name(i);
    let alias = intrinsic_alias(i);
    let start = opening(s);
    let all = namespaces_out(s, s.program.len(), start)->Ok_0;
    // every prefix of the walk over the namespaces succeeds
    namespaces_prefix_ok(s, (ns + 1) as nat, s.program.len(), start);
    let before = namespaces_out(s, ns as nat, start)->Ok_0;
    let here = in_namespace(s, ns as usize);
    let count = s.program[ns].functions.len();
    functions_prefix_ok(here, (f + 1) as nat, count, before);
    let e0 = functions_out(here, f as nat, before)->Ok_0;
    let func = s.program[ns].functions[f];
    function_mentions(here, scoped(ns as nat, func.name), func.body, e0, intrinsic_name(i));
    let e1 = functions_out(here, (f + 1) as nat, before)->Ok_0;
    functions_suffix_grows(here, (f + 1) as nat, count, before);
    let e2 = functions_out(here, count, before)->Ok_0;
    mention_survives(e1.text, e2.text, alias);
    namespaces_suffix_grows(s, (ns + 1) as nat, s.program.len(), start);
    mention_survives(e2.text, all.text, alias);
    function_grows(s, "main_body"@, main, all);
    let e3 = function_out(s, "main_body"@, main, all)->Ok_0;
    mention_survives(all.text, e3.text, alias);
    closing_grows(s.dialect, e3);
    mention_survives(e3.text, module_out(s, main)->Ok_0, alias);
}

/// When the functions of a namespace are generated, so is every first part of them.
pub proof fn functions_prefix_ok(s: Setting, k: nat, n: nat, e: Emitted)
    requires
        functions_out(s, n, e) is Ok,
        k <= n,
    ensures
        functions_out(s, k, e) is Ok,
    decreases n,
{
    if k < n {
        functions_prefix_ok(s, k, (n - 1) as nat, e);
    }
}

/// When the namespaces of a program are generated, so is every first part of them.
pub proof fn namespaces_prefix_ok(s: Setting, k: nat, n: nat, e: Emitted)
    requires
        namespaces_out(s, n, e) is Ok,
        k <= n,
    ensures
        namespaces_out(s, k, e) is Ok,
    decreases n,
{
    if k < n {
        namespaces_prefix_ok(s, k, (n - 1) as nat, e);
    }
}

/// Generating more functions of a namespace adds to what the first ones gave.
pub proof fn functions_suffix_grows(s: Setting, k: nat, n: nat, e: Emitted)
    requires
        functions_out(s, n, e) is Ok,
        k <= n,
    ensures
        functions_out(s, k, e) is Ok,
        extends(functions_out(s, k, e)->Ok_0.text, functions_out(s, n, e)->Ok_0.text),
    decreases n,
{
    functions_prefix_ok(s, k, n, e);
    if k == n {
        let t = functions_out(s, n, e)->Ok_0.text;
        assert(t.subrange(0, t.len() as int) =~= t);
    } else {
        functions_suffix_grows(s, k, (n - 1) as nat, e);
        let e1 = functions_out(s, (n - 1) as nat, e)->Ok_0;
        let f = s.program[s.namespace as int].functions[n - 1];
        function_grows(s, scoped(s.namespace as nat, f.name), f.body, e1);
        extends_twice(
            functions_out(s, k, e)->Ok_0.text,
            e1.text,
            functions_out(s, n, e)->Ok_0.text,
        );
    }
}

/// Generating more namespaces of a program adds to what the first ones gave.
pub proof fn namespaces_suffix_grows(s: Setting, k: nat, n: nat, e: Emitted)
    requires
        namespaces_out(s, n, e) is Ok,
        k <= n,
    ensures
        namespaces_out(s, k, e) is Ok,
        extends(namespaces_out(s, k, e)->Ok_0.text, namespaces_out(s, n, e)->Ok_0.text),
    decreases n,
{
    namespaces_prefix_ok(s, k, n, e);
    if k == n {
        let t = namespaces_out(s, n, e)->Ok_0.text;
        assert(t.subrange(0, t.len() as int) =~= t);
    } else {
        namespaces_suffix_grows(s, k, (n - 1) as nat, e);
        let e1 = namespaces_out(s, (n - 1) as nat, e)->Ok_0;
        functions_grow(in_namespace(s, (n - 1) as usize), s.program[n - 1].functions.len(), e1);
        extends_twice(
            namespaces_out(s, k, e)->Ok_0.text,
            e1.text,
            namespaces_out(s, n, e)->Ok_0.text,
        );
    }
}

/// The whole text generated for a program holds the alias of every built-in operation
/// that its entry block uses.
pub proof fn generated_text_mentions_intrinsics(
    s: Setting,
    runtime: Seq<char>,
    main: Seq<TermModel>,
    i: Intrinsic,
)
    requires
        program_out(s, runtime, main) is Ok,
        block_uses(main, main.len(), intrinsic_name(i)),
    ensures
        mentions(program_out(s, runtime, main)->Ok_0, intrinsic_alias(i)),
{
    generated_code_mentions_intrinsics(s, main, i);
    mention_in_middle(
        runtime + seam(s.dialect),
        module_out(s, main)->Ok_0,
        Seq::empty(),
        intrinsic_alias(i),
    );
    assert(runtime + seam(s.dialect) + module_out(s, main)->Ok_0 + Seq::<char>::empty()
        =~= program_out(s, runtime, main)->Ok_0);
}

/// The whole text generated for a program holds the alias of every built-in operation
/// that one of the functions of the program uses.
pub proof fn generated_text_mentions_intrinsics_of_functions(
    s: Setting,
    runtime: Seq<char>,
    main: Seq<TermModel>,
    ns: int,
    f: int,
    i: Intrinsic,
)
    requires
        program_out(s, runtime, main) is Ok,
        0 <= ns < s.program.len(),
        0 <= f < s.program[ns].functions.len(),
        s.program.len() <= usize::MAX,
        block_uses(
            s.program[ns].functions[f].body,
            s.program[ns].functions[f].body.len(),
            intrinsic_name(i),
        ),
    ensures
        mentions(program_out(s, runtime, main)->Ok_0, intrinsic_alias(i)),
{
    generated_functions_mention_intrinsics(s, main, ns, f, i);
    mention_in_middle(
        runtime + seam(s.dialect),
        module_out(s, main)->Ok_0,
        Seq::empty(),
        intrinsic_alias(i),
    );
    assert(runtime + seam(s.dialect) + module_out(s, main)->Ok_0 + Seq::<char>::empty()
        =~= program_out(s, runtime, main)->Ok_0);
}

/// The whole text generated for a program is longer than its runtime: it holds the
/// runtime and behind it the program text, which is never empty. So it has more than
/// 500 characters wherever the runtime has that many.
pub proof fn generated_text_is_long(s: Setting, runtime: Seq<char>, main: Seq<TermModel>)
    requires
        program_out(s, runtime, main) is Ok,
    ensures
        program_out(s, runtime, main)->Ok_0.len() == runtime.len() + seam(s.dialect).len()
            + module_out(s, main)->Ok_0.len(),
        program_out(s, runtime, main)->Ok_0.len() > runtime.len(),
        runtime.len() >= 500 ==> program_out(s, runtime, main)->Ok_0.len() > 500,
{
    let e1 = namespaces_out(s, s.program.len(), opening(s))->Ok_0;
    let e2 = function_out(s, "main_body"@, main, e1)->Ok_0;
    match s.dialect {
        Dialect::C => {
            reveal_strlit(
                "\nint main(void) {\n  checked(main_body());\n  checked(print_stack());\n}\n",
            );
        },
        Dialect::Js => {},
        Dialect::Rs => {
            reveal_strlit(
                "\nfn main() -> InterpreterResult {\n  let mut c = Interpreter::new();\n  main_body(&mut c)?;\n  c.print()?;\n  Ok(())\n}\n",
            );
        },
    }
}

} // verus!
