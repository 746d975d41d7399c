//! The inferred effect of a block is sound for the height of the stack: a run that does
//! not fail ends with the stack as much higher as the effect says.
use vstd::prelude::*;
use crate::accounting::{
    answer_keeps_account, branch_arm_keeps_account, branch_end_keeps_account, conditions_net, gain,
    loop_keeps_account, net, never_certain, operation_keeps_account, serial_adds_up,
    settled_height, test_takes_one,
};
use crate::analyze::{
    block_arity, block_failure_sticks, branch_arity, term_arity, tested, then, truthiness,
    Knowledge,
};
use crate::interpreter::{After, Frame, Machine, ReplyModel};
use crate::intrinsics::intrinsic_named;
use crate::lang::arity::ArityModel;
use crate::lang::ast::{arms_model, term_model, Block, Branch, Loop, Term, TermModel};
use crate::lang::source_location::SourceRange;
use crate::lang::value::ValueModel;
use crate::program::{resolution, NamespaceId, Program};

verus! {

/// What is known, as it reads code of namespace `ns`.
pub open spec fn within(k: Knowledge, ns: NamespaceId) -> Knowledge {
    Knowledge { program: k.program, table: k.table, namespace: ns }
}

/// Every effect in the table makes the stack grow by what the effect of the body of
/// its function does, read with the same table.
pub open spec fn table_agrees(k: Knowledge) -> bool {
    forall|ns: int, i: int|
        0 <= ns < k.table.len() && 0 <= i < k.table[ns].len() && (#[trigger] k.table[ns][i])
            is Some && k.table[ns][i]->0 is Ok ==> ns < k.program.len() && i
            < k.program[ns].functions.len() && ({
            let body = k.program[ns].functions[i].body;
            let read = block_arity(within(k, ns as usize), body, body.len());
            read is Ok && net(read->Ok_0) == net(k.table[ns][i]->0->Ok_0)
        })
}

/// The effect of a whole block.
pub open spec fn block_outcome(k: Knowledge, b: &Block) -> crate::analyze::Outcome {
    block_arity(k, b@, b@.len())
}

/// The effect of a branch.
pub open spec fn branch_outcome(k: Knowledge, b: &Branch) -> crate::analyze::Outcome {
    branch_arity(k, arms_model(b.arms@), 0, ArityModel::noop(), None)
}

/// The effect of a loop.
pub open spec fn loop_outcome(k: Knowledge, l: &Loop) -> crate::analyze::Outcome {
    term_arity(
        k,
        TermModel::Loop(
            match l.pre_condition {
                Some(p) => Some(p@),
                None => None,
            },
            l.body@,
            match l.post_condition {
                Some(p) => Some(p@),
                None => None,
            },
        ),
    )
}

/// By how much a condition of a loop makes the stack grow, its outcome tested; nothing
/// for a condition that is not there.
pub open spec fn condition_net(k: Knowledge, c: Option<Block>) -> int {
    match c {
        Some(b) => gain(block_outcome(k, &b)) - 1,
        None => 0,
    }
}

/// What a loop with a known effect is made of: its blocks have known effects, going
/// round once leaves the height of the stack as it was, the loop makes the stack grow
/// by what its first condition does, and by nothing if it has a last condition.
pub proof fn loop_facts(k: Knowledge, l: &Loop)
    requires
        loop_outcome(k, l) is Ok,
    ensures
        l.pre_condition is Some ==> block_outcome(k, &l.pre_condition->0) is Ok,
        block_outcome(k, &l.body) is Ok,
        l.post_condition is Some ==> block_outcome(k, &l.post_condition->0) is Ok,
        l.pre_condition is Some || l.post_condition is Some,
        condition_net(k, l.pre_condition) + gain(block_outcome(k, &l.body)) + condition_net(
            k,
            l.post_condition,
        ) == 0,
        gain(loop_outcome(k, l)) == condition_net(k, l.pre_condition),
        l.post_condition is Some ==> condition_net(k, l.pre_condition) == 0,
{
    let pre = match l.pre_condition {
        Some(b) => Some(tested(block_outcome(k, &b)->Ok_0)),
        None => None,
    };
    let post = match l.post_condition {
        Some(b) => Some(tested(block_outcome(k, &b)->Ok_0)),
        None => None,
    };
    let main = block_outcome(k, &l.body)->Ok_0;
    match l.pre_condition {
        Some(b) => test_takes_one(block_outcome(k, &b)->Ok_0),
        None => {},
    }
    match l.post_condition {
        Some(b) => test_takes_one(block_outcome(k, &b)->Ok_0),
        None => {},
    }
    loop_keeps_account(pre, main, post);
}

/// Whether a term is a literal, and if so, whether its value counts as true.
pub open spec fn literal_truth(t: TermModel) -> Option<bool> {
    match t {
        TermModel::String(s) => Some(s.len() > 0),
        TermModel::Number(n) => Some(n.truthy()),
        TermModel::Bool(b) => Some(b),
        TermModel::Address(_) => Some(true),
        _ => None,
    }
}

/// How many of the first `n` blocks that are being run are bodies of called functions.
pub open spec fn calls_within(frames: Seq<Frame>, n: nat) -> nat
    decreases n,
{
    if n == 0 || n > frames.len() {
        0
    } else {
        calls_within(frames, (n - 1) as nat) + if frames[n - 1].after is Return {
            1nat
        } else {
            0nat
        }
    }
}

/// The namespace of the code of the block at depth `d`.
pub open spec fn namespace_at(frames: Seq<Frame>, namespaces: Seq<NamespaceId>, d: int) -> NamespaceId {
    let calls = calls_within(frames, (d + 1) as nat);
    if calls == 0 || calls > namespaces.len() {
        0
    } else {
        namespaces[calls - 1]
    }
}

/// A block that is being run is one the analysis has read: it has a known effect, and
/// it is the part of a branch or of a loop with a known effect that its continuation
/// says; the condition of an arm is run only if no condition before it is known to
/// hold always.
#[verifier::opaque]
pub open spec fn frame_known(k: Knowledge, f: Frame) -> bool {
    &&& block_outcome(k, f.block) is Ok
    &&& f.next <= f.block.terms@.len()
    &&& match f.after {
        After::Nothing => true,
        After::Return => true,
        After::BranchCondition(branch, j) => j < branch.arms@.len() && *f.block
            == branch.arms@[j as int].0 && branch_outcome(k, branch) is Ok && never_certain(
            arms_model(branch.arms@),
            0,
            j as int,
        ),
        After::LoopPre(l) => loop_outcome(k, l) is Ok && l.pre_condition == Some(*f.block),
        After::LoopBody(l) => loop_outcome(k, l) is Ok && l.body == *f.block,
        After::LoopPost(l) => loop_outcome(k, l) is Ok && l.post_condition == Some(*f.block),
    }
}

/// By how much the stack will still grow until a block that is being run, and the
/// branch or loop it is part of, are over.
#[verifier::opaque]
pub open spec fn remaining(k: Knowledge, f: Frame) -> int {
    gain(block_outcome(k, f.block)) - gain(block_arity(k, f.block@, f.next as nat)) + match f.after {
        After::Nothing => 0,
        After::Return => 0,
        After::BranchCondition(branch, j) => gain(branch_outcome(k, branch)) - conditions_net(
            k,
            arms_model(branch.arms@),
            0,
            j as int,
        ) - gain(block_outcome(k, f.block)),
        After::LoopPre(l) => -1,
        After::LoopBody(l) => -gain(block_outcome(k, &l.body)),
        After::LoopPost(l) => -gain(block_outcome(k, &l.body)) - gain(block_outcome(k, f.block)),
    }
}

/// The term a block has just run is no literal.
pub open spec fn quiet(f: Frame) -> bool {
    f.next == 0 || f.next > f.block.terms@.len() || literal_truth(f.block@[f.next - 1]) is None
}

/// The first `n` blocks that are being run are known, each in its namespace, and all
/// but the innermost are quiet.
pub open spec fn known(k: Knowledge, frames: Seq<Frame>, namespaces: Seq<NamespaceId>, n: nat) -> bool
    decreases n,
{
    n == 0 || (n <= frames.len() && known(k, frames, namespaces, (n - 1) as nat)
        && calls_within(frames, n) <= namespaces.len() && namespace_at(
        frames,
        namespaces,
        n - 1,
    ) < k.program.len() && frame_known(
        within(k, namespace_at(frames, namespaces, n - 1)),
        frames[n - 1],
    ) && (n < frames.len() ==> quiet(frames[n - 1])))
}

/// By how much the stack will still grow until the first `n` blocks that are being run
/// are over.
pub open spec fn owing(k: Knowledge, frames: Seq<Frame>, namespaces: Seq<NamespaceId>, n: nat) -> int
    decreases n,
{
    if n == 0 || n > frames.len() {
        0
    } else {
        owing(k, frames, namespaces, (n - 1) as nat) + remaining(
            within(k, namespace_at(frames, namespaces, n - 1)),
            frames[n - 1],
        )
    }
}

/// The machine is in the middle of a run that the analysis has read.
pub open spec fn on_track(k: Knowledge, m: Machine) -> bool {
    &&& m.failure is None
    &&& calls_within(m.frames, m.frames.len()) == m.namespaces.len()
    &&& known(k, m.frames, m.namespaces, m.frames.len())
    &&& m.frames.len() > 0 && !quiet(m.frames.last()) ==> {
        let top = m.frames.last();
        m.pending is Nothing && m.stack.len() > 0 && Some(m.stack.last().truthy())
            == literal_truth(top.block@[top.next - 1])
    }
}

/// The height the stack will have when the run is over, if it does not fail.
pub open spec fn expected(k: Knowledge, m: Machine) -> int {
    settled_height(m) + owing(k, m.frames, m.namespaces, m.frames.len())
}

/// The calls counted among the blocks grow with the number of blocks.
pub proof fn calls_grow(frames: Seq<Frame>, n: nat, m: nat)
    requires
        n <= m <= frames.len(),
    ensures
        calls_within(frames, n) <= calls_within(frames, m),
    decreases m,
{
    if n < m {
        calls_grow(frames, n, (m - 1) as nat);
    }
}

/// What is said of the first `n` blocks depends on those blocks and on the namespaces
/// of their calls alone, but for the innermost of them being quiet.
pub proof fn prefix_agrees(
    k: Knowledge,
    frames: Seq<Frame>,
    namespaces: Seq<NamespaceId>,
    others: Seq<Frame>,
    other_namespaces: Seq<NamespaceId>,
    n: nat,
)
    requires
        n <= frames.len(),
        n <= others.len(),
        forall|d: int| 0 <= d < n ==> frames[d] == others[d],
        calls_within(frames, n) <= namespaces.len(),
        calls_within(frames, n) <= other_namespaces.len(),
        forall|c: int| 0 <= c < calls_within(frames, n) ==> namespaces[c] == other_namespaces[c],
    ensures
        calls_within(others, n) == calls_within(frames, n),
        owing(k, others, other_namespaces, n) == owing(k, frames, namespaces, n),
        n > 0 ==> namespace_at(others, other_namespaces, n - 1) == namespace_at(
            frames,
            namespaces,
            n - 1,
        ),
        known(k, frames, namespaces, n) && (n > 0 && n < others.len() ==> quiet(frames[n - 1]))
            ==> known(k, others, other_namespaces, n),
    decreases n,
{
    if n > 0 {
        calls_grow(frames, (n - 1) as nat, n);
        prefix_agrees(k, frames, namespaces, others, other_namespaces, (n - 1) as nat);
    }
}

/// The namespace of the innermost block is the one the machine says is current.
pub proof fn innermost_namespace(m: Machine)
    requires
        m.frames.len() > 0,
        calls_within(m.frames, m.frames.len()) == m.namespaces.len(),
    ensures
        namespace_at(m.frames, m.namespaces, m.frames.len() - 1) == m.current_namespace(),
{
}

/// The effect of a block up to a term, then that of the term, is the effect of the
/// block up to the next term; all three are known in a block whose effect is known.
pub proof fn next_term_adds_up(k: Knowledge, block: Seq<TermModel>, next: nat)
    requires
        block_arity(k, block, block.len()) is Ok,
        next < block.len(),
    ensures
        block_arity(k, block, next) is Ok,
        term_arity(k, block[next as int]) is Ok,
        block_arity(k, block, next + 1) is Ok,
        gain(block_arity(k, block, next + 1)) == gain(block_arity(k, block, next)) + gain(
            term_arity(k, block[next as int]),
        ),
{
    if block_arity(k, block, next + 1) is Err {
        block_failure_sticks(k, block, next + 1, block.len());
    }
    serial_adds_up(
        block_arity(k, block, next)->Ok_0,
        term_arity(k, block[next as int])->Ok_0,
    );
}

/// The machine whose innermost block has gone on to its next term.
pub open spec fn advanced<'a>(m: Machine<'a>) -> Machine<'a> {
    let top = m.frames.last();
    Machine {
        frames: m.frames.drop_last().push(
            Frame {
                block: top.block,
                next: (top.next + 1) as usize,
                after: top.after,
                scope: top.scope,
            },
        ),
        ..m
    }
}

/// A block that goes on to its next term stays known, with that term's effect less
/// to come.
pub proof fn frame_advances(k: Knowledge, f: Frame)
    requires
        frame_known(k, f),
        f.next < f.block.terms@.len(),
    ensures
        ({
            let g = Frame {
                block: f.block,
                next: (f.next + 1) as usize,
                after: f.after,
                scope: f.scope,
            };
            &&& g.next == f.next + 1
            &&& term_arity(k, f.block@[f.next as int]) is Ok
            &&& frame_known(k, g)
            &&& remaining(k, g) == remaining(k, f) - gain(term_arity(k, f.block@[f.next as int]))
        }),
{
    reveal(frame_known);
    reveal(remaining);
    assert(f.block.terms.len() == f.block.terms@.len());
    next_term_adds_up(k, f.block@, f.next as nat);
}

/// Going on to the next term leaves the run on track, with that term's effect less
/// to come.
pub proof fn advancing_keeps_track(k: Knowledge, m: Machine)
    requires
        on_track(k, m),
        m.frames.len() > 0,
        m.frames.last().next < m.frames.last().block.terms@.len(),
    ensures
        ({
            let top = m.frames.last();
            let ns = m.current_namespace();
            let after = advanced(m);
            let term = top.block@[top.next as int];
            &&& ns < k.program.len()
            &&& term_arity(within(k, ns), term) is Ok
            &&& calls_within(after.frames, after.frames.len()) == after.namespaces.len()
            &&& known(k, after.frames, after.namespaces, after.frames.len())
            &&& owing(k, after.frames, after.namespaces, after.frames.len()) == owing(
                k,
                m.frames,
                m.namespaces,
                m.frames.len(),
            ) - gain(term_arity(within(k, ns), term))
            &&& after.frames.len() == m.frames.len()
            &&& after.frames.last().next == top.next + 1
            &&& after.frames.last().block == top.block
            &&& after.frames.last().after == top.after
            &&& namespace_at(after.frames, after.namespaces, after.frames.len() - 1) == ns
        }),
{
    let top = m.frames.last();
    let n = m.frames.len();
    let after = advanced(m);
    innermost_namespace(m);
    let ns = m.current_namespace();
    frame_advances(within(k, ns), top);
    prefix_agrees(k, m.frames, m.namespaces, after.frames, after.namespaces, (n - 1) as nat);
    calls_grow(m.frames, (n - 1) as nat, n);
    assert(after.frames.len() == n);
    assert(after.frames[n - 1].after == top.after);
    assert(calls_within(after.frames, n) == calls_within(m.frames, n));
    assert(namespace_at(after.frames, after.namespaces, n - 1) == ns);
    assert(known(k, m.frames, m.namespaces, (n - 1) as nat));
    assert(known(k, after.frames, after.namespaces, (n - 1) as nat));
    assert(frame_known(within(k, ns), after.frames[n - 1]));
    assert(known(k, after.frames, after.namespaces, n));
    assert(owing(k, after.frames, after.namespaces, n) == owing(k, m.frames, m.namespaces, n)
        - gain(term_arity(within(k, ns), top.block@[top.next as int])));
}

/// Entering a block of a branch or of a loop leaves the blocks known, with what that
/// block still makes the stack grow by more to come.
pub proof fn entering_keeps_track(
    k: Knowledge,
    frames: Seq<Frame>,
    namespaces: Seq<NamespaceId>,
    f: Frame,
)
    requires
        calls_within(frames, frames.len()) == namespaces.len(),
        known(k, frames, namespaces, frames.len()),
        frames.len() > 0 ==> quiet(frames.last()),
        !(f.after is Return),
        namespace_at(frames, namespaces, frames.len() - 1) < k.program.len(),
        frame_known(within(k, namespace_at(frames, namespaces, frames.len() - 1)), f),
    ensures
        ({
            let more = frames.push(f);
            let ns = namespace_at(frames, namespaces, frames.len() - 1);
            &&& calls_within(more, more.len()) == namespaces.len()
            &&& known(k, more, namespaces, more.len())
            &&& owing(k, more, namespaces, more.len()) == owing(
                k,
                frames,
                namespaces,
                frames.len(),
            ) + remaining(within(k, ns), f)
            &&& namespace_at(more, namespaces, more.len() - 1) == ns
        }),
{
    let more = frames.push(f);
    let n = frames.len();
    prefix_agrees(k, frames, namespaces, more, namespaces, n);
    assert(more[n as int] == f);
    assert(calls_within(more, n + 1) == calls_within(more, n));
    assert(namespace_at(more, namespaces, n as int) == namespace_at(frames, namespaces, n - 1));
    assert(known(k, more, namespaces, n));
    assert(known(k, more, namespaces, n + 1));
}

/// Entering the body of a called function leaves the blocks known, with what the
/// body makes the stack grow by more to come.
pub proof fn calling_keeps_track(
    k: Knowledge,
    frames: Seq<Frame>,
    namespaces: Seq<NamespaceId>,
    f: Frame,
    target: NamespaceId,
)
    requires
        calls_within(frames, frames.len()) == namespaces.len(),
        known(k, frames, namespaces, frames.len()),
        frames.len() > 0 ==> quiet(frames.last()),
        f.after is Return,
        target < k.program.len(),
        frame_known(within(k, target), f),
    ensures
        ({
            let more = frames.push(f);
            let called = namespaces.push(target);
            &&& calls_within(more, more.len()) == called.len()
            &&& known(k, more, called, more.len())
            &&& owing(k, more, called, more.len()) == owing(k, frames, namespaces, frames.len())
                + remaining(within(k, target), f)
            &&& namespace_at(more, called, more.len() - 1) == target
        }),
{
    let more = frames.push(f);
    let called = namespaces.push(target);
    let n = frames.len();
    prefix_agrees(k, frames, namespaces, more, called, n);
    assert(more[n as int] == f);
    assert(calls_within(more, n + 1) == calls_within(more, n) + 1);
    assert(namespace_at(more, called, n as int) == target);
    assert(known(k, more, called, n));
    assert(known(k, more, called, n + 1));
}

/// Leaving the innermost block leaves the other blocks known, with what that block
/// still made the stack grow by less to come.
pub proof fn leaving_keeps_track(k: Knowledge, frames: Seq<Frame>, namespaces: Seq<NamespaceId>)
    requires
        frames.len() > 0,
        calls_within(frames, frames.len()) == namespaces.len(),
        known(k, frames, namespaces, frames.len()),
    ensures
        ({
            let top = frames.last();
            let ns = namespace_at(frames, namespaces, frames.len() - 1);
            let fewer = frames.drop_last();
            let left = if top.after is Return {
                namespaces.drop_last()
            } else {
                namespaces
            };
            &&& ns < k.program.len()
            &&& frame_known(within(k, ns), top)
            &&& top.after is Return ==> namespaces.len() > 0
            &&& calls_within(fewer, fewer.len()) == left.len()
            &&& known(k, fewer, left, fewer.len())
            &&& owing(k, fewer, left, fewer.len()) == owing(k, frames, namespaces, frames.len())
                - remaining(within(k, ns), top)
            &&& fewer.len() > 0 ==> quiet(fewer.last())
            &&& !(top.after is Return) ==> namespace_at(fewer, left, fewer.len() - 1) == ns
        }),
{
    let top = frames.last();
    let n = frames.len();
    let fewer = frames.drop_last();
    let left = if top.after is Return {
        namespaces.drop_last()
    } else {
        namespaces
    };
    calls_grow(frames, (n - 1) as nat, n);
    assert(known(k, frames, namespaces, (n - 1) as nat));
    prefix_agrees(k, frames, namespaces, fewer, left, (n - 1) as nat);
    if n > 1 {
        assert(quiet(frames[n - 2]));
        assert(fewer.last() == frames[n - 2]);
    }
    assert(known(k, fewer, left, (n - 1) as nat));
}

/// A block at its start.
pub open spec fn at_start<'a>(block: &'a Block, after: After<'a>, scope: usize) -> Frame<'a> {
    Frame { block, next: 0, after, scope }
}

/// The block a loop starts with: its first condition, or its body when it has none.
pub open spec fn loop_start<'a>(l: &'a Loop, scope: usize) -> Frame<'a> {
    match &l.pre_condition {
        Some(b) => at_start(b, After::LoopPre(l), scope),
        None => at_start(&l.body, After::LoopBody(l), scope),
    }
}

/// A block whose effect is known is known at its start, with its whole effect to come.
pub proof fn plain_block_known(k: Knowledge, block: &Block, scope: usize)
    requires
        block_outcome(k, block) is Ok,
    ensures
        frame_known(k, at_start(block, After::Nothing, scope)),
        remaining(k, at_start(block, After::Nothing, scope)) == gain(block_outcome(k, block)),
        frame_known(k, at_start(block, After::Return, scope)),
        remaining(k, at_start(block, After::Return, scope)) == gain(block_outcome(k, block)),
{
    reveal(frame_known);
    reveal(remaining);
}

/// A branch with a known effect starts with a known block that has the effect of the
/// branch to come; a branch without arms has no effect.
pub proof fn branch_start_known(k: Knowledge, branch: &Branch, scope: usize)
    requires
        branch_outcome(k, branch) is Ok,
    ensures
        branch.arms@.len() <= usize::MAX,
        branch.arms@.len() > 0 ==> {
            let f = at_start(&branch.arms@[0].0, After::BranchCondition(branch, 0), scope);
            frame_known(k, f) && remaining(k, f) == gain(branch_outcome(k, branch))
        },
        branch.arms@.len() == 0 ==> gain(branch_outcome(k, branch)) == 0,
{
    reveal(frame_known);
    reveal(remaining);
    assert(branch.arms.len() == branch.arms@.len());
    let arms = arms_model(branch.arms@);
    if branch.arms@.len() > 0 {
        branch_arm_keeps_account(k, arms, 0, ArityModel::noop(), None, 0);
    }
}

/// When the condition of an arm has run and may hold, the body of the arm is known,
/// and it has one value more to come than the condition had.
pub proof fn arm_body_known(k: Knowledge, top: Frame, scope: usize)
    requires
        frame_known(k, top),
        top.after is BranchCondition,
        top.next == top.block.terms@.len(),
        truthiness(top.block@) != Some(false),
    ensures
        ({
            let branch = top.after->BranchCondition_0;
            let j = top.after->BranchCondition_1;
            let f = at_start(&branch.arms@[j as int].1, After::Nothing, scope);
            j < branch.arms@.len() && frame_known(k, f) && remaining(k, f) - 1 == remaining(k, top)
        }),
{
    reveal(frame_known);
    reveal(remaining);
    let branch = top.after->BranchCondition_0;
    let j = top.after->BranchCondition_1;
    let arms = arms_model(branch.arms@);
    branch_arm_keeps_account(k, arms, 0, ArityModel::noop(), None, j as int);
    assert(arms[j as int].0 == top.block@);
    assert(conditions_net(k, arms, 0, j + 1) == conditions_net(k, arms, 0, j as int) + gain(
        block_arity(k, arms[j as int].0, arms[j as int].0.len()),
    ) - 1);
}

/// When the condition of an arm has run and may fail, the condition of the next arm
/// is known, and it has one value more to come than the condition had; after the last
/// arm, the condition had the test of its outcome to come and nothing else.
pub proof fn next_arm_known(k: Knowledge, top: Frame, scope: usize)
    requires
        frame_known(k, top),
        top.after is BranchCondition,
        top.next == top.block.terms@.len(),
        truthiness(top.block@) != Some(true),
    ensures
        ({
            let branch = top.after->BranchCondition_0;
            let j = top.after->BranchCondition_1;
            let f = at_start(
                &branch.arms@[j + 1].0,
                After::BranchCondition(branch, (j + 1) as usize),
                scope,
            );
            &&& j < branch.arms@.len() <= usize::MAX
            &&& j + 1 < branch.arms@.len() ==> frame_known(k, f) && remaining(k, f) - 1
                == remaining(k, top)
            &&& j + 1 >= branch.arms@.len() ==> remaining(k, top) == -1
        }),
{
    reveal(frame_known);
    reveal(remaining);
    let branch = top.after->BranchCondition_0;
    let j = top.after->BranchCondition_1;
    let arms = arms_model(branch.arms@);
    assert(branch.arms.len() == branch.arms@.len());
    assert(arms[j as int].0 == top.block@);
    assert(never_certain(arms, 0, j + 1)) by {
        assert forall|x: int| 0 <= x < j + 1 implies truthiness(#[trigger] arms[x].0) != Some(
            true,
        ) by {
            if x < j {
                assert(never_certain(arms, 0, j as int));
            }
        }
    }
    assert(conditions_net(k, arms, 0, j + 1) == conditions_net(k, arms, 0, j as int) + gain(
        block_arity(k, arms[j as int].0, arms[j as int].0.len()),
    ) - 1);
    if j + 1 < branch.arms@.len() {
        branch_arm_keeps_account(k, arms, 0, ArityModel::noop(), None, j + 1);
    } else {
        branch_end_keeps_account(k, arms, 0, ArityModel::noop(), None);
    }
}

/// A loop with a known effect starts with a known block that has the effect of the
/// loop to come, which is nothing if the loop has a last condition or no first one.
pub proof fn loop_start_known(k: Knowledge, l: &Loop, scope: usize)
    requires
        loop_outcome(k, l) is Ok,
    ensures
        frame_known(k, loop_start(l, scope)),
        !(loop_start(l, scope).after is Return),
        remaining(k, loop_start(l, scope)) == gain(loop_outcome(k, l)),
        l.post_condition is Some || l.pre_condition is None ==> gain(loop_outcome(k, l)) == 0,
{
    reveal(frame_known);
    reveal(remaining);
    loop_facts(k, l);
}

/// When a block of a loop has run to its end: the first condition has the test of
/// its outcome to come, and the body, which is known, nothing; the body has to come
/// what the block after it has, which is known: the last condition, or else the
/// block the loop starts with; the last condition has the test of its outcome to
/// come.
pub proof fn loop_goes_on(k: Knowledge, top: Frame, scope: usize)
    requires
        frame_known(k, top),
        top.next == top.block.terms@.len(),
        top.after is LoopPre || top.after is LoopBody || top.after is LoopPost,
    ensures
        match top.after {
            After::LoopPre(l) => remaining(k, top) == -1 && frame_known(
                k,
                at_start(&l.body, After::LoopBody(l), scope),
            ) && remaining(k, at_start(&l.body, After::LoopBody(l), scope)) == 0,
            After::LoopBody(l) => match &l.post_condition {
                Some(b) => frame_known(k, at_start(b, After::LoopPost(l), scope)) && remaining(
                    k,
                    at_start(b, After::LoopPost(l), scope),
                ) == remaining(k, top),
                None => remaining(k, loop_start(l, scope)) == remaining(k, top),
            },
            After::LoopPost(l) => remaining(k, top) == -1 && l.post_condition is Some,
            _ => true,
        },
        match top.after {
            After::LoopPre(l) => loop_outcome(k, l) is Ok,
            After::LoopBody(l) => loop_outcome(k, l) is Ok,
            After::LoopPost(l) => loop_outcome(k, l) is Ok,
            _ => true,
        },
{
    reveal(frame_known);
    reveal(remaining);
    match top.after {
        After::LoopPre(l) => loop_facts(k, l),
        After::LoopBody(l) => loop_facts(k, l),
        After::LoopPost(l) => loop_facts(k, l),
        _ => {},
    }
}

/// A block that has run to its end and is no part of a branch or a loop has nothing
/// more to come.
pub proof fn plain_block_over(k: Knowledge, top: Frame)
    requires
        frame_known(k, top),
        top.next == top.block.terms@.len(),
        top.after is Nothing || top.after is Return,
    ensures
        remaining(k, top) == 0,
{
    reveal(frame_known);
    reveal(remaining);
}

/// A block that is known has not run past its end.
pub proof fn frame_in_bounds(k: Knowledge, f: Frame)
    requires
        frame_known(k, f),
    ensures
        f.next <= f.block.terms@.len() <= usize::MAX,
        block_outcome(k, f.block) is Ok,
{
    reveal(frame_known);
    assert(f.block.terms.len() == f.block.terms@.len());
}

/// The body of a function that a name with a known effect calls is known in the
/// namespace of the function, and has the effect of the name to come.
pub proof fn called_body_known(
    program: &Program,
    k: Knowledge,
    name: Seq<char>,
    range: SourceRange,
    scope: usize,
)
    requires
        k.program == program@,
        table_agrees(k),
        k.namespace < k.program.len(),
        intrinsic_named(name) is None,
        resolution(k.program, k.namespace, name) is Some,
        term_arity(k, TermModel::Name(name, range)) is Ok,
    ensures
        ({
            let target = resolution(k.program, k.namespace, name)->Some_0.0;
            let i = resolution(k.program, k.namespace, name)->Some_0.1;
            let f = at_start(
                &program.namespaces@[target as int].functions@[i].body,
                After::Return,
                scope,
            );
            target < k.program.len() && frame_known(within(k, target), f) && remaining(
                within(k, target),
                f,
            ) == gain(term_arity(k, TermModel::Name(name, range)))
        }),
{
    let target = resolution(k.program, k.namespace, name)->Some_0.0;
    let i = resolution(k.program, k.namespace, name)->Some_0.1;
    assert(k.table[target as int][i] is Some);
    let body = &program.namespaces@[target as int].functions@[i].body;
    assert(program@[target as int] == program.namespaces@[target as int]@);
    assert(program@[target as int].functions[i] == program.namespaces@[target as int].functions@[i]@);
    assert(body@ == k.program[target as int].functions[i].body);
    plain_block_known(within(k, target), body, scope);
}

/// What a step has to keep: the run has failed, or it is still on track and the
/// height expected at its end is what it was.
pub open spec fn kept(k: Knowledge, before: Machine, after: Machine) -> bool {
    after.failure is Some || (on_track(k, after) && expected(k, after) == expected(k, before))
}

/// Running a literal keeps the account.
proof fn literal_keeps_track<'a>(program: &'a Program, k: Knowledge, m: Machine<'a>, t: &'a Term)
    requires
        on_track(k, m),
        m.pending is Nothing,
        m.frames.len() > 0,
        m.frames.last().next < m.frames.last().block.terms@.len(),
        *t == m.frames.last().block.terms@[m.frames.last().next as int],
        *t is String || *t is Number || *t is Bool || *t is Address,
    ensures
        kept(k, m, advanced(m).term_run(program, t).0),
{
    advancing_keeps_track(k, m);
    let top = m.frames.last();
    let a = advanced(m);
    let after = a.term_run(program, t).0;
    let n = m.frames.len();
    assert(top.block@[top.next as int] == term_model(*t));
    assert(after.frames == a.frames);
    assert(after.namespaces == a.namespaces);
    assert(!quiet(after.frames.last()) ==> Some(after.stack.last().truthy()) == literal_truth(
        term_model(*t),
    ));
    assert(on_track(k, after));
    assert(gain(term_arity(within(k, m.current_namespace()), term_model(*t))) == 1);
}

/// Binding a capture variable keeps the account.
proof fn capture_keeps_track<'a>(program: &'a Program, k: Knowledge, m: Machine<'a>, t: &'a Term)
    requires
        on_track(k, m),
        m.pending is Nothing,
        m.frames.len() > 0,
        m.frames.last().next < m.frames.last().block.terms@.len(),
        *t == m.frames.last().block.terms@[m.frames.last().next as int],
        *t is Capture,
    ensures
        kept(k, m, advanced(m).term_run(program, t).0),
{
    advancing_keeps_track(k, m);
    let top = m.frames.last();
    let a = advanced(m);
    let after = a.term_run(program, t).0;
    assert(top.block@[top.next as int] == term_model(*t));
    if m.stack.len() > 0 {
        assert(after.frames == a.frames);
        assert(after.namespaces == a.namespaces);
        assert(quiet(after.frames.last()));
        assert(on_track(k, after));
        assert(gain(term_arity(within(k, m.current_namespace()), term_model(*t))) == -1);
    }
}

/// Running a name keeps the account.
proof fn name_keeps_track<'a>(program: &'a Program, k: Knowledge, m: Machine<'a>, t: &'a Term)
    requires
        k.program == program@,
        table_agrees(k),
        on_track(k, m),
        m.pending is Nothing,
        m.frames.len() > 0,
        m.frames.last().next < m.frames.last().block.terms@.len(),
        *t == m.frames.last().block.terms@[m.frames.last().next as int],
        *t is Name,
    ensures
        kept(k, m, advanced(m).term_run(program, t).0),
{
    advancing_keeps_track(k, m);
    let top = m.frames.last();
    let a = advanced(m);
    let after = a.term_run(program, t).0;
    let ns = m.current_namespace();
    let kk = within(k, ns);
    let name = t->Name_0@;
    let range = t->Name_1;
    assert(top.block@[top.next as int] == term_model(*t));
    assert(term_model(*t) == TermModel::Name(name, range));
    assert(a.current_namespace() == ns);
    let entered = Machine {
        trail: a.trail.push(
            crate::interpreter::BacktraceItem { namespace: ns, name: t->Name_0, range },
        ),
        ..a
    };
    assert(a.term_run(program, t) == entered.named(program, ns, name));
    assert(quiet(a.frames.last()));
    match intrinsic_named(name) {
        Some(i) => {
            assert(!(i is Eval));
            operation_keeps_account(entered, i);
            if after.failure is None {
                assert(after.frames == a.frames);
                assert(after.namespaces == a.namespaces);
                assert(on_track(k, after));
            }
        },
        None => {
            match resolution(k.program, ns, name) {
                Some((target, i)) => {
                    called_body_known(program, kk, name, range, a.bindings.len() as usize);
                    let f = at_start(
                        &program.namespaces@[target as int].functions@[i].body,
                        After::Return,
                        a.bindings.len() as usize,
                    );
                    calling_keeps_track(k, a.frames, a.namespaces, f, target);
                    assert(after.frames == a.frames.push(f));
                    assert(after.namespaces == a.namespaces.push(target));
                    assert(quiet(f));
                    assert(on_track(k, after));
                },
                None => {
                    if after.failure is None {
                        assert(after.frames == a.frames);
                        assert(after.namespaces == a.namespaces);
                        assert(on_track(k, after));
                        assert(gain(term_arity(kk, term_model(*t))) == 1);
                    }
                },
            }
        },
    }
}

/// Starting a branch keeps the account.
proof fn branch_keeps_track<'a>(program: &'a Program, k: Knowledge, m: Machine<'a>, t: &'a Term)
    requires
        on_track(k, m),
        m.pending is Nothing,
        m.frames.len() > 0,
        m.frames.last().next < m.frames.last().block.terms@.len(),
        *t == m.frames.last().block.terms@[m.frames.last().next as int],
        *t is Branch,
    ensures
        kept(k, m, advanced(m).term_run(program, t).0),
{
    advancing_keeps_track(k, m);
    let top = m.frames.last();
    let a = advanced(m);
    let after = a.term_run(program, t).0;
    let ns = m.current_namespace();
    let kk = within(k, ns);
    assert(top.block@[top.next as int] == term_model(*t));
    assert(quiet(a.frames.last()));
    match t {
        Term::Branch(b) => {
            assert(term_arity(kk, term_model(*t)) == branch_outcome(kk, b));
            branch_start_known(kk, b, a.bindings.len() as usize);
            assert(after == a.starting_arm(b, 0));
            if b.arms@.len() > 0 {
                let f = at_start(
                    &b.arms@[0].0,
                    After::BranchCondition(b, 0),
                    a.bindings.len() as usize,
                );
                entering_keeps_track(k, a.frames, a.namespaces, f);
                assert(after.frames == a.frames.push(f));
                assert(quiet(f));
                assert(on_track(k, after));
            } else {
                assert(after == a);
                assert(on_track(k, after));
            }
        },
        _ => {},
    }
}

/// Starting a loop keeps the account.
proof fn loop_keeps_track<'a>(program: &'a Program, k: Knowledge, m: Machine<'a>, t: &'a Term)
    requires
        on_track(k, m),
        m.pending is Nothing,
        m.frames.len() > 0,
        m.frames.last().next < m.frames.last().block.terms@.len(),
        *t == m.frames.last().block.terms@[m.frames.last().next as int],
        *t is Loop,
    ensures
        kept(k, m, advanced(m).term_run(program, t).0),
{
    advancing_keeps_track(k, m);
    let top = m.frames.last();
    let a = advanced(m);
    let after = a.term_run(program, t).0;
    let ns = m.current_namespace();
    let kk = within(k, ns);
    assert(top.block@[top.next as int] == term_model(*t));
    assert(quiet(a.frames.last()));
    match t {
        Term::Loop(l) => {
            assert(term_arity(kk, term_model(*t)) == loop_outcome(kk, l));
            let f = loop_start(l, a.bindings.len() as usize);
            loop_start_known(kk, l, a.bindings.len() as usize);
            assert(after == a.starting_loop(l));
            entering_keeps_track(k, a.frames, a.namespaces, f);
            assert(after.frames == a.frames.push(f));
            assert(quiet(f));
            assert(on_track(k, after));
        },
        _ => {},
    }
}

/// The machine that has left its innermost block and forgotten the variables bound in it.
pub open spec fn departed<'a>(m: Machine<'a>) -> Machine<'a> {
    Machine {
        frames: m.frames.drop_last(),
        bindings: crate::interpreter::cut(m.bindings, m.frames.last().scope),
        ..m
    }
}

/// Whether the condition that has just run is known to hold, or known to fail, fits
/// the value it left on the stack.
proof fn outcome_fits(k: Knowledge, m: Machine)
    requires
        on_track(k, m),
        m.frames.len() > 0,
        m.frames.last().next == m.frames.last().block.terms@.len(),
    ensures
        truthiness(m.frames.last().block@) is Some ==> m.stack.len() > 0 && truthiness(
            m.frames.last().block@,
        ) == Some(m.stack.last().truthy()),
{
    let top = m.frames.last();
    if truthiness(top.block@) is Some {
        assert(top.block@.len() > 0);
        assert(top.block@.last() == top.block@[top.next - 1]);
        assert(!quiet(top));
    }
}

/// Leaving a block that is no part of a branch or a loop keeps the account.
proof fn leaving_plain_keeps_track<'a>(k: Knowledge, m: Machine<'a>)
    requires
        on_track(k, m),
        m.pending is Nothing,
        m.frames.len() > 0,
        m.frames.last().next >= m.frames.last().block.terms@.len(),
        m.frames.last().after is Nothing || m.frames.last().after is Return,
    ensures
        kept(k, m, departed(m).after_block(m.frames.last().after).0),
{
    let top = m.frames.last();
    let d = departed(m);
    let after = d.after_block(top.after).0;
    let ns = namespace_at(m.frames, m.namespaces, m.frames.len() - 1);
    let kk = within(k, ns);
    let scope = d.bindings.len() as usize;
    leaving_keeps_track(k, m.frames, m.namespaces);
    frame_in_bounds(kk, top);
    plain_block_over(kk, top);
    match top.after {
        After::Nothing => {
            assert(after == d);
            assert(on_track(k, after));
        },
        After::Return => {
            assert(after.frames == d.frames);
            assert(after.namespaces == m.namespaces.drop_last());
            assert(on_track(k, after));
        },
        _ => {},
    }
}

/// Leaving the condition of an arm keeps the account.
proof fn leaving_condition_keeps_track<'a>(k: Knowledge, m: Machine<'a>)
    requires
        on_track(k, m),
        m.pending is Nothing,
        m.frames.len() > 0,
        m.frames.last().next >= m.frames.last().block.terms@.len(),
        m.frames.last().after is BranchCondition,
    ensures
        kept(k, m, departed(m).after_block(m.frames.last().after).0),
{
    let top = m.frames.last();
    let d = departed(m);
    let after = d.after_block(top.after).0;
    let ns = namespace_at(m.frames, m.namespaces, m.frames.len() - 1);
    let kk = within(k, ns);
    let scope = d.bindings.len() as usize;
    leaving_keeps_track(k, m.frames, m.namespaces);
    frame_in_bounds(kk, top);
    outcome_fits(k, m);
    let branch = top.after->BranchCondition_0;
    let j = top.after->BranchCondition_1;
    if m.stack.len() > 0 {
        let tested = d.popped(1);
        if m.stack.last().truthy() {
            arm_body_known(kk, top, scope);
            let f = at_start(&branch.arms@[j as int].1, After::Nothing, scope);
            entering_keeps_track(k, d.frames, d.namespaces, f);
            assert(after == tested.entering(&branch.arms@[j as int].1, After::Nothing));
            assert(after.frames == d.frames.push(f));
            assert(quiet(f));
            assert(on_track(k, after));
        } else {
            next_arm_known(kk, top, scope);
            assert(after == tested.starting_arm(branch, j + 1));
            if j + 1 < branch.arms@.len() {
                let f = at_start(
                    &branch.arms@[j + 1].0,
                    After::BranchCondition(branch, (j + 1) as usize),
                    scope,
                );
                entering_keeps_track(k, d.frames, d.namespaces, f);
                assert(after.frames == d.frames.push(f));
                assert(quiet(f));
                assert(on_track(k, after));
            } else {
                assert(after == tested);
                assert(on_track(k, after));
            }
        }
    }
}

/// Leaving the first condition of a loop keeps the account.
proof fn leaving_first_condition_keeps_track<'a>(k: Knowledge, m: Machine<'a>)
    requires
        on_track(k, m),
        m.pending is Nothing,
        m.frames.len() > 0,
        m.frames.last().next >= m.frames.last().block.terms@.len(),
        m.frames.last().after is LoopPre,
    ensures
        kept(k, m, departed(m).after_block(m.frames.last().after).0),
{
    let top = m.frames.last();
    let d = departed(m);
    let after = d.after_block(top.after).0;
    let ns = namespace_at(m.frames, m.namespaces, m.frames.len() - 1);
    let kk = within(k, ns);
    let scope = d.bindings.len() as usize;
    leaving_keeps_track(k, m.frames, m.namespaces);
    frame_in_bounds(kk, top);
    loop_goes_on(kk, top, scope);
    let l = top.after->LoopPre_0;
    if m.stack.len() > 0 {
        let tested = d.popped(1);
        if m.stack.last().truthy() {
            let f = at_start(&l.body, After::LoopBody(l), scope);
            entering_keeps_track(k, d.frames, d.namespaces, f);
            assert(after == tested.entering(&l.body, After::LoopBody(l)));
            assert(after.frames == d.frames.push(f));
            assert(quiet(f));
            assert(on_track(k, after));
        } else {
            assert(after == tested);
            assert(on_track(k, after));
        }
    }
}

/// Leaving the body of a loop keeps the account.
proof fn leaving_body_keeps_track<'a>(k: Knowledge, m: Machine<'a>)
    requires
        on_track(k, m),
        m.pending is Nothing,
        m.frames.len() > 0,
        m.frames.last().next >= m.frames.last().block.terms@.len(),
        m.frames.last().after is LoopBody,
    ensures
        kept(k, m, departed(m).after_block(m.frames.last().after).0),
{
    let top = m.frames.last();
    let d = departed(m);
    let after = d.after_block(top.after).0;
    let ns = namespace_at(m.frames, m.namespaces, m.frames.len() - 1);
    let kk = within(k, ns);
    let scope = d.bindings.len() as usize;
    leaving_keeps_track(k, m.frames, m.namespaces);
    frame_in_bounds(kk, top);
    loop_goes_on(kk, top, scope);
    let l = top.after->LoopBody_0;
    loop_start_known(kk, l, scope);
    let f = match &l.post_condition {
        Some(b) => at_start(b, After::LoopPost(l), scope),
        None => loop_start(l, scope),
    };
    entering_keeps_track(k, d.frames, d.namespaces, f);
    assert(after.frames == d.frames.push(f));
    assert(after.namespaces == d.namespaces);
    assert(quiet(f));
    assert(on_track(k, after));
}

/// Leaving the last condition of a loop keeps the account.
proof fn leaving_last_condition_keeps_track<'a>(k: Knowledge, m: Machine<'a>)
    requires
        on_track(k, m),
        m.pending is Nothing,
        m.frames.len() > 0,
        m.frames.last().next >= m.frames.last().block.terms@.len(),
        m.frames.last().after is LoopPost,
    ensures
        kept(k, m, departed(m).after_block(m.frames.last().after).0),
{
    let top = m.frames.last();
    let d = departed(m);
    let after = d.after_block(top.after).0;
    let ns = namespace_at(m.frames, m.namespaces, m.frames.len() - 1);
    let kk = within(k, ns);
    let scope = d.bindings.len() as usize;
    leaving_keeps_track(k, m.frames, m.namespaces);
    frame_in_bounds(kk, top);
    loop_goes_on(kk, top, scope);
    let l = top.after->LoopPost_0;
    loop_start_known(kk, l, scope);
    if m.stack.len() > 0 {
        let tested = d.popped(1);
        if m.stack.last().truthy() {
            let f = loop_start(l, scope);
            entering_keeps_track(k, d.frames, d.namespaces, f);
            assert(after == tested.starting_loop(l));
            assert(after.frames == d.frames.push(f));
            assert(quiet(f));
            assert(on_track(k, after));
        } else {
            assert(after == tested);
            assert(on_track(k, after));
        }
    }
}

/// Leaving a block keeps the account.
proof fn leaving_a_block_keeps_track<'a>(k: Knowledge, m: Machine<'a>)
    requires
        on_track(k, m),
        m.pending is Nothing,
        m.frames.len() > 0,
        m.frames.last().next >= m.frames.last().block.terms@.len(),
    ensures
        kept(k, m, departed(m).after_block(m.frames.last().after).0),
{
    match m.frames.last().after {
        After::Nothing => leaving_plain_keeps_track(k, m),
        After::Return => leaving_plain_keeps_track(k, m),
        After::BranchCondition(_, _) => leaving_condition_keeps_track(k, m),
        After::LoopPre(_) => leaving_first_condition_keeps_track(k, m),
        After::LoopBody(_) => leaving_body_keeps_track(k, m),
        After::LoopPost(_) => leaving_last_condition_keeps_track(k, m),
    }
}

/// A step of a run that is on track keeps the account: unless the run fails, it stays
/// on track, and the height expected at its end stays what it was.
pub proof fn step_keeps_account<'a>(program: &'a Program, k: Knowledge, m: Machine<'a>)
    requires
        k.program == program@,
        table_agrees(k),
        on_track(k, m),
    ensures
        kept(k, m, m.stepped(program).0),
{
    if m.pending is Nothing && m.frames.len() > 0 {
        let top = m.frames.last();
        if top.next < top.block.terms@.len() {
            let t = &top.block.terms@[top.next as int];
            assert(m.stepped(program) == advanced(m).term_run(program, t));
            match t {
                Term::Name(_, _) => name_keeps_track(program, k, m, t),
                Term::Capture(_, _) => capture_keeps_track(program, k, m, t),
                Term::Branch(_) => branch_keeps_track(program, k, m, t),
                Term::Loop(_) => loop_keeps_track(program, k, m, t),
                _ => literal_keeps_track(program, k, m, t),
            }
        } else {
            assert(m.stepped(program) == departed(m).after_block(top.after));
            leaving_a_block_keeps_track(k, m);
        }
    }
}

/// An answer of the host to a run that is on track keeps the account.
pub proof fn answer_keeps_track(k: Knowledge, m: Machine, reply: ReplyModel)
    requires
        on_track(k, m),
    ensures
        kept(k, m, m.answered(reply).0),
{
    answer_keeps_account(m, reply);
    let after = m.answered(reply).0;
    if after.failure is None {
        assert(!(m.pending is Nothing));
        assert(after.frames == m.frames);
        assert(after.namespaces == m.namespaces);
        assert(on_track(k, after));
    }
}

/// What happens to a machine: it takes a step, or its host answers it.
pub enum Event {
    Step,
    Answer(ReplyModel),
}

/// The machine after a sequence of events.
pub open spec fn after_events<'a>(program: &'a Program, m: Machine<'a>, events: Seq<Event>) -> Machine<
    'a,
>
    decreases events.len(),
{
    if events.len() == 0 {
        m
    } else {
        let before = after_events(program, m, events.drop_last());
        match events.last() {
            Event::Step => before.stepped(program).0,
            Event::Answer(reply) => before.answered(reply).0,
        }
    }
}

/// A machine set to run a block whose effect is known is on track, and the height
/// expected at the end of the run is that of its stack and what the effect makes the
/// stack grow by.
pub proof fn start_is_on_track<'a>(
    program: &'a Program,
    k: Knowledge,
    block: &'a Block,
    stack: Seq<ValueModel>,
)
    requires
        k.program == program@,
        k.namespace == 0,
        program@.len() > 0,
        block_outcome(k, block) is Ok,
    ensures
        on_track(k, Machine::fresh(stack).entering(block, After::Nothing)),
        expected(k, Machine::fresh(stack).entering(block, After::Nothing)) == stack.len() + gain(
            block_outcome(k, block),
        ),
{
    let start = Machine::fresh(stack).entering(block, After::Nothing);
    let f = at_start(block, After::Nothing, 0);
    assert(within(k, 0) == k);
    plain_block_known(k, block, 0);
    let none = Seq::<Frame>::empty();
    assert(known(k, none, start.namespaces, 0));
    entering_keeps_track(k, none, start.namespaces, f);
    assert(start.frames =~= none.push(f));
    assert(quiet(f));
}

/// Stack accounting. Take a table of effects that agrees with the bodies of the
/// functions it speaks of, and a block that has a known effect when it is read with
/// that table in the first namespace. Start a machine with any stack on that block,
/// and let it take steps and get answers from its host, whatever the host answers and
/// whenever. If the run is then over and has not failed, the stack has grown by the
/// number of values the effect pushes less the number it pops.
pub proof fn run_keeps_account<'a>(
    program: &'a Program,
    k: Knowledge,
    block: &'a Block,
    stack: Seq<ValueModel>,
    events: Seq<Event>,
)
    requires
        k.program == program@,
        k.namespace == 0,
        program@.len() > 0,
        table_agrees(k),
        block_outcome(k, block) is Ok,
    ensures
        ({
            let end = after_events(
                program,
                Machine::fresh(stack).entering(block, After::Nothing),
                events,
            );
            let effect = block_outcome(k, block)->Ok_0;
            &&& end.failure is Some || (on_track(k, end) && expected(k, end) == stack.len() + net(
                effect,
            ))
            &&& end.failure is None && end.frames.len() == 0 && end.pending is Nothing
                ==> end.stack.len() + effect.pops.len() == stack.len() + effect.pushes.len()
        }),
    decreases events.len(),
{
    let start = Machine::fresh(stack).entering(block, After::Nothing);
    if events.len() == 0 {
        start_is_on_track(program, k, block, stack);
    } else {
        run_keeps_account(program, k, block, stack, events.drop_last());
        let before = after_events(program, start, events.drop_last());
        if before.failure is None {
            match events.last() {
                Event::Step => step_keeps_account(program, k, before),
                Event::Answer(reply) => answer_keeps_track(k, before, reply),
            }
        }
    }
}

} // verus!
