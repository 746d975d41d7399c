//! Every name in code that the analysis gave an effect is accounted for: it is a
//! built-in operation, or it resolves to a function whose effect is known, or nothing
//! defines it and it is read as a capture variable.
use vstd::prelude::*;
use crate::agreement::{analysis_keeps_reading, read_from_bodies};
use crate::analyze::{
    analysis_of, blank, block_arity, branch_arity, shaped, term_arity, tested, then, truthiness,
    with_ending, Knowledge,
};
use crate::intrinsics::intrinsic_named;
use crate::lang::arity::ArityModel;
use crate::lang::ast::TermModel;
use crate::program::{resolution, NamespaceModel};

verus! {

/// A name is accounted for: it is a built-in operation; or it resolves to a function,
/// and the table holds an effect for that function; or it resolves to nothing, and is
/// read as a capture variable.
pub open spec fn name_accounted(k: Knowledge, name: Seq<char>) -> bool {
    intrinsic_named(name) is Some || match resolution(k.program, k.namespace, name) {
        Some((ns, i)) => ns < k.table.len() && 0 <= i < k.table[ns as int].len()
            && k.table[ns as int][i] is Some && k.table[ns as int][i]->0 is Ok,
        None => true,
    }
}

/// Every name in the term is accounted for, as far as the term can run: the arms of
/// a branch behind a condition that always holds do not count, nor the body of an arm
/// whose condition never holds.
pub open spec fn term_accounted(k: Knowledge, t: TermModel) -> bool
    decreases t, 0int,
{
    match t {
        TermModel::Name(n, _) => name_accounted(k, n),
        TermModel::Branch(arms) => arms_accounted(k, arms, 0),
        TermModel::Loop(pre, body, post) => (match pre {
            Some(b) => block_accounted(k, b, b.len()),
            None => true,
        }) && block_accounted(k, body, body.len()) && (match post {
            Some(b) => block_accounted(k, b, b.len()),
            None => true,
        }),
        _ => true,
    }
}

/// Every name in the first `n` terms of the block is accounted for.
pub open spec fn block_accounted(k: Knowledge, block: Seq<TermModel>, n: nat) -> bool
    decreases block, n,
{
    n == 0 || n > block.len() || (block_accounted(k, block, (n - 1) as nat) && term_accounted(
        k,
        block[n - 1],
    ))
}

/// Every name in the arms from `i` on is accounted for, as far as the arms can run.
pub open spec fn arms_accounted(
    k: Knowledge,
    arms: Seq<(Seq<TermModel>, Seq<TermModel>)>,
    i: nat,
) -> bool
    decreases arms, arms.len() - i,
{
    i >= arms.len() || (block_accounted(k, arms[i as int].0, arms[i as int].0.len()) && (
    truthiness(arms[i as int].0) == Some(false) || block_accounted(
        k,
        arms[i as int].1,
        arms[i as int].1.len(),
    )) && (truthiness(arms[i as int].0) == Some(true) || arms_accounted(k, arms, i + 1)))
}

/// In a term with a known effect every name is accounted for.
pub proof fn analysed_term_resolves(k: Knowledge, t: TermModel)
    requires
        term_arity(k, t) is Ok,
    ensures
        term_accounted(k, t),
    decreases t, 0int,
{
    match t {
        TermModel::Branch(arms) => analysed_arms_resolve(k, arms, 0, ArityModel::noop(), None),
        TermModel::Loop(pre, body, post) => {
            match pre {
                Some(b) => analysed_block_resolves(k, b, b.len()),
                None => {},
            }
            analysed_block_resolves(k, body, body.len());
            match post {
                Some(b) => analysed_block_resolves(k, b, b.len()),
                None => {},
            }
        },
        _ => {},
    }
}

/// In a block with a known effect every name is accounted for.
pub proof fn analysed_block_resolves(k: Knowledge, block: Seq<TermModel>, n: nat)
    requires
        block_arity(k, block, n) is Ok,
    ensures
        block_accounted(k, block, n),
    decreases block, n,
{
    if n > 0 && n <= block.len() {
        analysed_block_resolves(k, block, (n - 1) as nat);
        analysed_term_resolves(k, block[n - 1]);
    }
}

/// In a branch with a known effect every name is accounted for.
pub proof fn analysed_arms_resolve(
    k: Knowledge,
    arms: Seq<(Seq<TermModel>, Seq<TermModel>)>,
    i: nat,
    running: ArityModel,
    combined: Option<ArityModel>,
)
    requires
        branch_arity(k, arms, i, running, combined) is Ok,
    ensures
        arms_accounted(k, arms, i),
    decreases arms, arms.len() - i,
{
    if i < arms.len() {
        let c = block_arity(k, arms[i as int].0, arms[i as int].0.len())->Ok_0;
        analysed_block_resolves(k, arms[i as int].0, arms[i as int].0.len());
        let tested_so_far = then(running, tested(c))->Ok_0;
        let truth = truthiness(arms[i as int].0);
        if truth == Some(false) {
            analysed_arms_resolve(k, arms, i + 1, tested_so_far, combined);
        } else {
            analysed_block_resolves(k, arms[i as int].1, arms[i as int].1.len());
            let body = block_arity(k, arms[i as int].1, arms[i as int].1.len())->Ok_0;
            let arm = then(tested_so_far, body)->Ok_0;
            let all = with_ending(combined, arm)->Ok_0;
            if truth != Some(true) {
                analysed_arms_resolve(k, arms, i + 1, tested_so_far, Some(all));
            }
        }
    }
}

/// Resolution. In the table that the analysis of a program gives, every function with
/// an effect has a body in which every name is accounted for: each name that is no
/// built-in operation and no capture variable resolves to a function, and that
/// function has an effect in the table.
pub proof fn analysed_functions_resolve(program: Seq<NamespaceModel>, ns: int, i: int)
    requires
        0 <= ns < program.len(),
        0 <= i < program[ns].functions.len(),
    ensures
        ({
            let table = analysis_of(program, blank(program));
            ns < table.len() && i < table[ns].len() && table[ns][i] is Some && table[ns][i]->0
                is Ok ==> block_accounted(
                Knowledge { program, table, namespace: ns as usize },
                program[ns].functions[i].body,
                program[ns].functions[i].body.len(),
            )
        }),
{
    let start = blank(program);
    assert(shaped(program, start));
    assert(read_from_bodies(program, start));
    analysis_keeps_reading(program, start);
    let table = analysis_of(program, start);
    if ns < table.len() && i < table[ns].len() && table[ns][i] is Some && table[ns][i]->0 is Ok {
        analysed_block_resolves(
            Knowledge { program, table, namespace: ns as usize },
            program[ns].functions[i].body,
            program[ns].functions[i].body.len(),
        );
    }
}

} // verus!
