//! The table of effects that the analysis of a program gives agrees with the bodies of
//! the functions it speaks of.
use vstd::prelude::*;
use crate::accounting::net;
use crate::analyze::{
    after_functions, after_namespaces, analysis_of, blank, block_arity, branch_arity, isolated,
    name_arity, open_entries, shaped, step_function, step_function_facts, term_arity, tested,
    then, truthiness, with_ending, Knowledge, Outcome,
};
use crate::lang::arity::ArityModel;
use crate::lang::ast::TermModel;
use crate::interpreter::{After, Machine};
use crate::lang::ast::Block;
use crate::lang::value::ValueModel;
use crate::program::{NamespaceModel, Program};
use crate::soundness::{
    after_events, block_outcome, run_keeps_account, table_agrees, within, Event,
};

verus! {

/// A table of effects: for each namespace, for each of its functions, the outcome, if
/// it is known.
pub type Table = Seq<Seq<Option<Outcome>>>;

/// `later` has every outcome that `earlier` has.
pub open spec fn extends(earlier: Table, later: Table) -> bool {
    &&& earlier.len() == later.len()
    &&& forall|n: int| 0 <= n < earlier.len() ==> (#[trigger] later[n]).len() == earlier[n].len()
    &&& forall|n: int, i: int|
        0 <= n < earlier.len() && 0 <= i < earlier[n].len() && (#[trigger] earlier[n][i]) is Some
            ==> later[n][i] == earlier[n][i]
}

/// What is known, with another table.
pub open spec fn with_table(k: Knowledge, table: Table) -> Knowledge {
    Knowledge { program: k.program, table, namespace: k.namespace }
}

/// A name with a known effect keeps it when more outcomes are known.
pub proof fn name_stays(k: Knowledge, later: Table, name: Seq<char>)
    requires
        extends(k.table, later),
        name_arity(k, name) is Ok,
    ensures
        name_arity(with_table(k, later), name) == name_arity(k, name),
{
}

/// A term with a known effect keeps it when more outcomes are known.
pub proof fn term_stays(k: Knowledge, later: Table, t: TermModel)
    requires
        extends(k.table, later),
        term_arity(k, t) is Ok,
    ensures
        term_arity(with_table(k, later), t) == term_arity(k, t),
    decreases t, 0int,
{
    match t {
        TermModel::Name(n, _) => name_stays(k, later, n),
        TermModel::Branch(arms) => branch_stays(k, later, arms, 0, ArityModel::noop(), None),
        TermModel::Loop(pre, body, post) => {
            match pre {
                Some(b) => block_stays(k, later, b, b.len()),
                None => {},
            }
            block_stays(k, later, body, body.len());
            match post {
                Some(b) => block_stays(k, later, b, b.len()),
                None => {},
            }
        },
        _ => {},
    }
}

/// A block with a known effect keeps it when more outcomes are known.
pub proof fn block_stays(k: Knowledge, later: Table, block: Seq<TermModel>, n: nat)
    requires
        extends(k.table, later),
        block_arity(k, block, n) is Ok,
    ensures
        block_arity(with_table(k, later), block, n) == block_arity(k, block, n),
    decreases block, n,
{
    if n > 0 && n <= block.len() {
        block_stays(k, later, block, (n - 1) as nat);
        term_stays(k, later, block[n - 1]);
    }
}

/// A branch with a known effect keeps it when more outcomes are known.
pub proof fn branch_stays(
    k: Knowledge,
    later: Table,
    arms: Seq<(Seq<TermModel>, Seq<TermModel>)>,
    i: nat,
    running: ArityModel,
    combined: Option<ArityModel>,
)
    requires
        extends(k.table, later),
        branch_arity(k, arms, i, running, combined) is Ok,
    ensures
        branch_arity(with_table(k, later), arms, i, running, combined) == branch_arity(
            k,
            arms,
            i,
            running,
            combined,
        ),
    decreases arms, arms.len() - i,
{
    if i < arms.len() {
        let c = block_arity(k, arms[i as int].0, arms[i as int].0.len())->Ok_0;
        block_stays(k, later, arms[i as int].0, arms[i as int].0.len());
        let tested_so_far = then(running, tested(c))->Ok_0;
        let truth = truthiness(arms[i as int].0);
        if truth == Some(false) {
            branch_stays(k, later, arms, i + 1, tested_so_far, combined);
        } else {
            block_stays(k, later, arms[i as int].1, arms[i as int].1.len());
            let body = block_arity(k, arms[i as int].1, arms[i as int].1.len())->Ok_0;
            let arm = then(tested_so_far, body)->Ok_0;
            let all = with_ending(combined, arm)->Ok_0;
            if truth != Some(true) {
                branch_stays(k, later, arms, i + 1, tested_so_far, Some(all));
            }
        }
    }
}

/// Every effect in the table is that of the body of its function, read with the same
/// table and seen from outside.
pub open spec fn read_from_bodies(program: Seq<NamespaceModel>, table: Table) -> bool {
    forall|ns: int, i: int|
        0 <= ns < table.len() && 0 <= i < table[ns].len() && (#[trigger] table[ns][i]) is Some
            && table[ns][i]->0 is Ok ==> ns < program.len() && i < program[ns].functions.len()
            && isolated(
            block_arity(
                Knowledge { program, table, namespace: ns as usize },
                program[ns].functions[i].body,
                program[ns].functions[i].body.len(),
            ),
        ) == table[ns][i]->0
}

/// A table whose effects are read from the bodies agrees with the bodies.
pub proof fn read_table_agrees(k: Knowledge)
    requires
        read_from_bodies(k.program, k.table),
    ensures
        table_agrees(k),
{
    assert forall|ns: int, i: int|
        0 <= ns < k.table.len() && 0 <= i < k.table[ns].len() && (#[trigger] k.table[ns][i])
            is Some && k.table[ns][i]->0 is Ok implies ns < k.program.len() && i
        < k.program[ns].functions.len() && ({
        let body = k.program[ns].functions[i].body;
        let read = block_arity(within(k, ns as usize), body, body.len());
        read is Ok && net(read->Ok_0) == net(k.table[ns][i]->0->Ok_0)
    }) by {
        assert(within(k, ns as usize) == Knowledge {
            program: k.program,
            table: k.table,
            namespace: ns as usize,
        });
    }
}

/// One turn of a function leaves every outcome the table had, and a table whose
/// effects are read from the bodies stays one.
pub proof fn turn_keeps_reading(program: Seq<NamespaceModel>, table: Table, ns: int, i: int)
    requires
        shaped(program, table),
        read_from_bodies(program, table),
        0 <= ns < program.len(),
        0 <= i < program[ns].functions.len(),
    ensures
        extends(table, step_function(program, table, ns, i)),
        read_from_bodies(program, step_function(program, table, ns, i)),
{
    let next = step_function(program, table, ns, i);
    step_function_facts(program, table, ns, i);
    assert(extends(table, next)) by {
        assert forall|n: int| 0 <= n < table.len() implies (#[trigger] next[n]).len()
            == table[n].len() by {}
        assert forall|n: int, j: int|
            0 <= n < table.len() && 0 <= j < table[n].len() && (#[trigger] table[n][j])
                is Some implies next[n][j] == table[n][j] by {}
    }
    assert forall|n: int, j: int|
        0 <= n < next.len() && 0 <= j < next[n].len() && (#[trigger] next[n][j]) is Some
            && next[n][j]->0 is Ok implies n < program.len() && j < program[n].functions.len()
        && isolated(
        block_arity(
            Knowledge { program, table: next, namespace: n as usize },
            program[n].functions[j].body,
            program[n].functions[j].body.len(),
        ),
    ) == next[n][j]->0 by {
        let k = Knowledge { program, table, namespace: n as usize };
        let body = program[n].functions[j].body;
        assert(with_table(k, next) == Knowledge { program, table: next, namespace: n as usize });
        if table[n][j] is Some {
            assert(next[n][j] == table[n][j]);
            block_stays(k, next, body, body.len());
        } else {
            assert(n == ns && j == i);
            block_stays(k, next, body, body.len());
        }
    }
}

/// The turns of the first `k` functions of a namespace keep a table read from the bodies.
pub proof fn turns_keep_reading(program: Seq<NamespaceModel>, table: Table, ns: int, k: nat)
    requires
        shaped(program, table),
        read_from_bodies(program, table),
        0 <= ns < program.len(),
        k <= program[ns].functions.len(),
    ensures
        shaped(program, after_functions(program, table, ns, k)),
        read_from_bodies(program, after_functions(program, table, ns, k)),
    decreases k,
{
    if k > 0 {
        turns_keep_reading(program, table, ns, (k - 1) as nat);
        let before = after_functions(program, table, ns, (k - 1) as nat);
        step_function_facts(program, before, ns, k - 1);
        turn_keeps_reading(program, before, ns, k - 1);
    }
}

/// The turns of the functions of the first `n` namespaces keep a table read from the
/// bodies.
pub proof fn rounds_keep_reading(program: Seq<NamespaceModel>, table: Table, n: nat)
    requires
        shaped(program, table),
        read_from_bodies(program, table),
        n <= program.len(),
    ensures
        shaped(program, after_namespaces(program, table, n)),
        read_from_bodies(program, after_namespaces(program, table, n)),
    decreases n,
{
    if n > 0 {
        rounds_keep_reading(program, table, (n - 1) as nat);
        turns_keep_reading(
            program,
            after_namespaces(program, table, (n - 1) as nat),
            n - 1,
            program[n - 1].functions.len(),
        );
    }
}

/// The analysis keeps a table read from the bodies.
pub proof fn analysis_keeps_reading(program: Seq<NamespaceModel>, table: Table)
    requires
        shaped(program, table),
        read_from_bodies(program, table),
    ensures
        read_from_bodies(program, analysis_of(program, table)),
    decreases open_entries(table, table.len()),
{
    rounds_keep_reading(program, table, program.len());
    let next = after_namespaces(program, table, program.len());
    if open_entries(next, next.len()) < open_entries(table, table.len()) {
        analysis_keeps_reading(program, next);
    }
}

/// The table that the analysis of a program gives agrees with the bodies of the
/// functions: every effect in it makes the stack grow by what the effect of the body
/// of its function does, read with that table.
pub proof fn analysis_agrees(program: Seq<NamespaceModel>, namespace: usize)
    ensures
        table_agrees(
            Knowledge { program, table: analysis_of(program, blank(program)), namespace },
        ),
{
    let start = blank(program);
    assert(shaped(program, start));
    assert(read_from_bodies(program, start));
    analysis_keeps_reading(program, start);
    read_table_agrees(
        Knowledge { program, table: analysis_of(program, start), namespace },
    );
}

/// Stack accounting for an analysed program. Take a program with at least one
/// namespace, the table of effects that its analysis gives, and a block that has a
/// known effect when it is read with that table in the first namespace. Start a
/// machine with any stack on that block, and let it take steps and get answers from
/// its host, whatever the host answers and whenever. If the run is then over and has
/// not failed, the stack has grown by the number of values the effect pushes less the
/// number it pops.
pub proof fn analysed_run_keeps_account<'a>(
    program: &'a Program,
    block: &'a Block,
    stack: Seq<ValueModel>,
    events: Seq<Event>,
)
    requires
        program@.len() > 0,
        block_outcome(
            Knowledge {
                program: program@,
                table: analysis_of(program@, blank(program@)),
                namespace: 0,
            },
            block,
        ) is Ok,
    ensures
        ({
            let end = after_events(
                program,
                Machine::fresh(stack).entering(block, After::Nothing),
                events,
            );
            let effect = block_outcome(
                Knowledge {
                    program: program@,
                    table: analysis_of(program@, blank(program@)),
                    namespace: 0,
                },
                block,
            )->Ok_0;
            end.failure is None && end.frames.len() == 0 && end.pending is Nothing
                ==> end.stack.len() + effect.pops.len() == stack.len() + effect.pushes.len()
        }),
{
    analysis_agrees(program@, 0);
    run_keeps_account(
        program,
        Knowledge {
            program: program@,
            table: analysis_of(program@, blank(program@)),
            namespace: 0,
        },
        block,
        stack,
        events,
    );
}

} // verus!
