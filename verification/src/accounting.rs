//! By how much effects make the stack grow: the effect of one block after another adds
//! up, the effects of alternatives agree, a loop goes round without growth, and a
//! built-in operation keeps to its entry in the table.
use vstd::prelude::*;
use crate::analyze::{
    block_arity, branch_arity, exit_recorded, loop_rounds, round_of, seen_before, seen_limit,
    tested, then, truthiness, with_ending, Knowledge, Outcome,
};
use crate::interpreter::{Machine, PendingModel, ReplyModel};
use crate::intrinsics::{intrinsic_arity, Intrinsic};
use crate::lang::arity::{longer, parallel_of, serial_of, ArityModel};
use crate::lang::ast::TermModel;
use crate::lang::types::Type;
use crate::stack::{is_stack_only, stack_only_operations_keep_account};

verus! {

/// By how much an effect makes the stack grow.
pub open spec fn net(a: ArityModel) -> int {
    a.pushes.len() - a.pops.len()
}

/// Taking one slot leaves an effect that makes the stack grow by one less.
pub proof fn popped_takes_one(a: ArityModel, term: Type)
    ensures
        match a.popped(term) {
            Ok((s, _)) => net(s) == net(a) - 1,
            Err(_) => true,
        },
{
}

/// Taking `k` slots leaves an effect that makes the stack grow by `k` less.
pub proof fn popped_all_takes_each(a: ArityModel, terms: Seq<Type>, k: nat)
    ensures
        match a.popped_all(terms, k) {
            Ok((s, _)) => net(s) == net(a) - k,
            Err(_) => true,
        },
    decreases k,
{
    if k > 0 {
        popped_all_takes_each(a, terms, (k - 1) as nat);
        match a.popped_all(terms, (k - 1) as nat) {
            Ok((s, _)) => popped_takes_one(s, terms[k - 1]),
            Err(_) => {},
        }
    }
}

/// One effect after another makes the stack grow by what the two make it grow together.
pub proof fn serial_adds_up(a: ArityModel, b: ArityModel)
    ensures
        match serial_of(a, b) {
            Ok(c) => net(c) == net(a) + net(b),
            Err(_) => true,
        },
{
    popped_all_takes_each(a, b.pops, b.pops.len());
}

/// How many values the operation that waits for its host will still leave on the
/// stack, beyond those it will still take.
pub open spec fn owed(p: PendingModel) -> int {
    match p {
        PendingModel::Nothing => 0,
        PendingModel::Value => 1,
        PendingModel::SubstringEnd => -1,
        PendingModel::SubstringStart(_) => 0,
        PendingModel::FromChar => 1,
        PendingModel::Converted(_) => 1,
        PendingModel::JoinFirst(_) => 1,
        PendingModel::JoinSecond(_) => 1,
        PendingModel::PrintText => 0,
        PendingModel::Printed => 0,
        PendingModel::Line => 2,
    }
}

/// The height the stack will have once the operation that waits for its host is over.
pub open spec fn settled_height(m: Machine) -> int {
    m.stack.len() + owed(m.pending)
}

/// A built-in operation other than `eval`, if it does not fail, changes the settled
/// height of the stack by what its effect in the table says, and leaves the blocks
/// that are being run as they are.
pub proof fn operation_keeps_account(m: Machine, i: Intrinsic)
    requires
        !(i is Eval),
        m.pending is Nothing,
    ensures
        ({
            let after = m.operated(i).0;
            after.failure is Some || (settled_height(after) == m.stack.len() + net(
                intrinsic_arity(i),
            ) && after.frames == m.frames && after.namespaces == m.namespaces && after.failure
                == m.failure)
        }),
{
    if is_stack_only(i) {
        stack_only_operations_keep_account(i, m.stack);
    }
}

/// An answer of the host, if the run does not fail on it, leaves the settled height of
/// the stack and the blocks that are being run as they are.
pub proof fn answer_keeps_account(m: Machine, reply: ReplyModel)
    ensures
        ({
            let after = m.answered(reply).0;
            after.failure is Some || (settled_height(after) == settled_height(m) && after.frames
                == m.frames && after.namespaces == m.namespaces)
        }),
{
}

/// Padding an effect does not change by how much it makes the stack grow.
pub proof fn padding_keeps_net(a: ArityModel, n: nat)
    ensures
        net(a.padded_to(n)) == net(a),
        a.padded_to(n).pops.len() == longer(a.pops.len(), n),
    decreases n - a.pops.len(),
{
    if a.pops.len() < n {
        padding_keeps_net(a.padded(), n);
    }
}

/// Two effects that can stand for either of two blocks make the stack grow by the
/// same, and so does the effect that stands for both.
pub proof fn parallel_keeps_net(a: ArityModel, b: ArityModel)
    ensures
        match parallel_of(a, b) {
            Ok(c) => net(c) == net(a) && net(c) == net(b),
            Err(_) => true,
        },
{
    let n = longer(a.pops.len(), b.pops.len());
    padding_keeps_net(a, n);
    padding_keeps_net(b, n);
}

/// Testing the outcome of a condition takes one value.
pub proof fn test_takes_one(a: ArityModel)
    ensures
        net(tested(a)) == net(a) - 1,
{
    popped_takes_one(a, Type::Unknown);
}

/// One more way out does not change by how much the ways out make the stack grow.
pub proof fn ending_keeps_net(combined: Option<ArityModel>, a: ArityModel)
    ensures
        match with_ending(combined, a) {
            Ok(c) => net(c) == net(a) && (combined is Some ==> net(c) == net(combined->0)),
            Err(_) => true,
        },
{
    match combined {
        Some(before) => parallel_keeps_net(before, a),
        None => {},
    }
}

/// By how much an effect that may be missing makes the stack grow.
pub open spec fn net_of(a: Option<ArityModel>) -> int {
    match a {
        Some(a) => net(a),
        None => 0,
    }
}

/// What one round of a loop does to the running effect and to the ways out.
pub proof fn round_keeps_account(
    pre: Option<ArityModel>,
    main: ArityModel,
    post: Option<ArityModel>,
    running: ArityModel,
    possible: Option<ArityModel>,
)
    ensures
        match round_of(pre, main, post, running, possible) {
            Ok((r, p)) => {
                &&& net(r) == net(running) + net_of(pre) + net(main) + net_of(post)
                &&& possible is Some ==> p is Some && net(p->0) == net(possible->0)
                &&& pre is Some ==> p is Some && net(p->0) == net(running) + net(pre->0)
                &&& post is Some ==> p is Some && net(p->0) == net(r)
            },
            Err(_) => true,
        },
{
    let first = match pre {
        Some(c) => exit_recorded(running, possible, c),
        None => Ok((running, possible)),
    };
    match pre {
        Some(c) => {
            serial_adds_up(running, c);
            match then(running, c) {
                Ok(r) => ending_keeps_net(possible, r),
                Err(_) => {},
            }
        },
        None => {},
    }
    match first {
        Ok((now, exit)) => {
            serial_adds_up(now, main);
            match then(now, main) {
                Ok(done) => match post {
                    Some(c) => {
                        serial_adds_up(done, c);
                        match then(done, c) {
                            Ok(r) => ending_keeps_net(exit, r),
                            Err(_) => {},
                        }
                    },
                    None => {},
                },
                Err(_) => {},
            }
        },
        Err(_) => {},
    }
}

/// The effect of a loop makes the stack grow by what the ways out found before did.
pub proof fn rounds_keep_exit(
    pre: Option<ArityModel>,
    main: ArityModel,
    post: Option<ArityModel>,
    running: ArityModel,
    possible: Option<ArityModel>,
    seen: Seq<ArityModel>,
)
    requires
        possible is Some,
    ensures
        match loop_rounds(pre, main, post, running, possible, seen) {
            Ok(a) => net(a) == net(possible->0),
            Err(_) => true,
        },
    decreases seen_limit() - seen.len(),
{
    if !seen_before(seen, running, seen.len()) && seen.len() < seen_limit() {
        round_keeps_account(pre, main, post, running, possible);
        match round_of(pre, main, post, running, possible) {
            Ok((r, p)) => rounds_keep_exit(pre, main, post, r, p, seen.push(running)),
            Err(_) => {},
        }
    }
}

/// A loop whose effect is known goes round without making the stack grow, and its
/// effect is that of leaving it at its first condition.
pub proof fn loop_keeps_account(
    pre: Option<ArityModel>,
    main: ArityModel,
    post: Option<ArityModel>,
)
    requires
        pre is Some || post is Some,
    ensures
        match loop_rounds(pre, main, post, ArityModel::noop(), None, Seq::empty()) {
            Ok(a) => {
                &&& net_of(pre) + net(main) + net_of(post) == 0
                &&& net(a) == net_of(pre)
                &&& post is Some ==> net_of(pre) == 0
            },
            Err(_) => true,
        },
{
    let start = ArityModel::noop();
    let none = Seq::<ArityModel>::empty();
    assert(!seen_before(none, start, 0));
    round_keeps_account(pre, main, post, start, None);
    match round_of(pre, main, post, start, None) {
        Ok((r, p)) => {
            let seen = none.push(start);
            assert(seen_before(seen, r, 1) == (r == start)) by {
                assert(!seen_before(seen, r, 0));
            }
            rounds_keep_exit(pre, main, post, r, p, seen);
            if r != start {
                round_keeps_account(pre, main, post, r, p);
                match round_of(pre, main, post, r, p) {
                    Ok((again, exits)) => {
                        rounds_keep_exit(pre, main, post, again, exits, seen.push(r));
                    },
                    Err(_) => {},
                }
            }
        },
        Err(_) => {},
    }
}

/// By how much an outcome that is an effect makes the stack grow.
pub open spec fn gain(o: Outcome) -> int {
    match o {
        Ok(a) => net(a),
        Err(_) => 0,
    }
}

/// The arms of a branch as the analysis reads them.
pub type Arms = Seq<(Seq<TermModel>, Seq<TermModel>)>;

/// By how much the conditions of the arms from `from` up to `to` make the stack grow,
/// each with its outcome tested.
pub open spec fn conditions_net(k: Knowledge, arms: Arms, from: int, to: int) -> int
    decreases to - from,
{
    if from >= to {
        0
    } else {
        conditions_net(k, arms, from, to - 1) + gain(
            block_arity(k, arms[to - 1].0, arms[to - 1].0.len()),
        ) - 1
    }
}

/// None of the conditions of the arms from `from` up to `to` is known to hold always.
pub open spec fn never_certain(arms: Arms, from: int, to: int) -> bool {
    forall|x: int| from <= x < to ==> truthiness(#[trigger] arms[x].0) != Some(true)
}

/// The conditions from `from` up to `to` split at their first.
pub proof fn conditions_net_from(k: Knowledge, arms: Arms, from: int, to: int)
    requires
        from < to,
    ensures
        conditions_net(k, arms, from, to) == gain(
            block_arity(k, arms[from].0, arms[from].0.len()),
        ) - 1 + conditions_net(k, arms, from + 1, to),
    decreases to - from,
{
    if from + 1 < to {
        conditions_net_from(k, arms, from, to - 1);
    } else {
        assert(conditions_net(k, arms, from, to - 1) == 0);
        assert(conditions_net(k, arms, from + 1, to) == 0);
    }
}

/// The effect of a branch makes the stack grow by what the ways out found before did.
pub proof fn branch_keeps_exit(
    k: Knowledge,
    arms: Arms,
    i: nat,
    running: ArityModel,
    combined: Option<ArityModel>,
)
    requires
        combined is Some,
    ensures
        match branch_arity(k, arms, i, running, combined) {
            Ok(a) => net(a) == net(combined->0),
            Err(_) => true,
        },
    decreases arms.len() - i,
{
    if i >= arms.len() {
        ending_keeps_net(combined, running);
    } else {
        match block_arity(k, arms[i as int].0, arms[i as int].0.len()) {
            Err(_) => {},
            Ok(c) => match then(running, tested(c)) {
                Err(_) => {},
                Ok(tested_so_far) => {
                    let truth = truthiness(arms[i as int].0);
                    if truth == Some(false) {
                        branch_keeps_exit(k, arms, i + 1, tested_so_far, combined);
                    } else {
                        match block_arity(k, arms[i as int].1, arms[i as int].1.len()) {
                            Err(_) => {},
                            Ok(body) => match then(tested_so_far, body) {
                                Err(_) => {},
                                Ok(arm) => {
                                    ending_keeps_net(combined, arm);
                                    match with_ending(combined, arm) {
                                        Err(_) => {},
                                        Ok(all) => if truth != Some(true) {
                                            branch_keeps_exit(
                                                k,
                                                arms,
                                                i + 1,
                                                tested_so_far,
                                                Some(all),
                                            );
                                        },
                                    }
                                },
                            }
                        }
                    }
                },
            },
        }
    }
}

/// In a branch whose effect is known, every condition that can be reached has a known
/// effect; and an arm that can run has a body with a known effect, and running the
/// conditions up to it and then its body makes the stack grow by what the branch does.
pub proof fn branch_arm_keeps_account(
    k: Knowledge,
    arms: Arms,
    i: nat,
    running: ArityModel,
    combined: Option<ArityModel>,
    j: int,
)
    requires
        branch_arity(k, arms, i, running, combined) is Ok,
        i <= j < arms.len(),
        never_certain(arms, i as int, j),
    ensures
        block_arity(k, arms[j].0, arms[j].0.len()) is Ok,
        truthiness(arms[j].0) != Some(false) ==> block_arity(k, arms[j].1, arms[j].1.len()) is Ok
            && gain(branch_arity(k, arms, i, running, combined)) == net(running) + conditions_net(
            k,
            arms,
            i as int,
            j + 1,
        ) + gain(block_arity(k, arms[j].1, arms[j].1.len())),
    decreases arms.len() - i,
{
    let c = block_arity(k, arms[i as int].0, arms[i as int].0.len())->Ok_0;
    test_takes_one(c);
    serial_adds_up(running, tested(c));
    let tested_so_far = then(running, tested(c))->Ok_0;
    let truth = truthiness(arms[i as int].0);
    conditions_net_from(k, arms, i as int, j + 1);
    if truth == Some(false) {
        if i < j {
            branch_arm_keeps_account(k, arms, i + 1, tested_so_far, combined, j);
        }
    } else {
        let body = block_arity(k, arms[i as int].1, arms[i as int].1.len())->Ok_0;
        serial_adds_up(tested_so_far, body);
        let arm = then(tested_so_far, body)->Ok_0;
        ending_keeps_net(combined, arm);
        let all = with_ending(combined, arm)->Ok_0;
        if i < j {
            assert(truth != Some(true));
            branch_arm_keeps_account(k, arms, i + 1, tested_so_far, Some(all), j);
        } else {
            assert(conditions_net(k, arms, i as int + 1, j + 1) == 0);
            if truth != Some(true) {
                branch_keeps_exit(k, arms, i + 1, tested_so_far, Some(all));
            }
        }
    }
}

/// In a branch whose effect is known and in which no condition is known to hold
/// always, running all the conditions makes the stack grow by what the branch does.
pub proof fn branch_end_keeps_account(
    k: Knowledge,
    arms: Arms,
    i: nat,
    running: ArityModel,
    combined: Option<ArityModel>,
)
    requires
        branch_arity(k, arms, i, running, combined) is Ok,
        i <= arms.len(),
        never_certain(arms, i as int, arms.len() as int),
    ensures
        gain(branch_arity(k, arms, i, running, combined)) == net(running) + conditions_net(
            k,
            arms,
            i as int,
            arms.len() as int,
        ),
    decreases arms.len() - i,
{
    if i >= arms.len() {
        ending_keeps_net(combined, running);
    } else {
        let c = block_arity(k, arms[i as int].0, arms[i as int].0.len())->Ok_0;
        test_takes_one(c);
        serial_adds_up(running, tested(c));
        let tested_so_far = then(running, tested(c))->Ok_0;
        let truth = truthiness(arms[i as int].0);
        assert(truth != Some(true));
        conditions_net_from(k, arms, i as int, arms.len() as int);
        if truth == Some(false) {
            branch_end_keeps_account(k, arms, i + 1, tested_so_far, combined);
        } else {
            let body = block_arity(k, arms[i as int].1, arms[i as int].1.len())->Ok_0;
            let arm = then(tested_so_far, body)->Ok_0;
            let all = with_ending(combined, arm)->Ok_0;
            branch_end_keeps_account(k, arms, i + 1, tested_so_far, Some(all));
        }
    }
}

} // verus!
