//! Stack-effect inference over blocks, functions and whole programs.
use vstd::prelude::*;
use crate::intrinsics::{get_intrinsic_arity, intrinsic_arity, intrinsic_named, Intrinsic};
use crate::lang::arity::{
    effect_of, effects, parallel_of, serial_of, Arity, ArityCombineError, ArityModel, Effect,
    Resultant,
};
use crate::lang::ast::{arms_model, term_model, Block, Branch, Loop, Term, TermModel};
use crate::lang::multi_index::MultiIndex;
use crate::lang::types::Type;
use crate::program::{program_wf, resolution, NamespaceId, NamespaceModel, Program};

verus! {

/// Why a block has no stack effect.
#[derive(Debug, PartialEq)]
pub enum AnalysisError {
    /// The net effect depends on how often a loop runs, or on what `eval` is handed.
    IndefiniteSize,
    /// Two types that must agree do not.
    IncompatibleTypes,
    /// The block calls a function whose effect is not known yet.
    Pending,
    /// The block reads names that nothing defines.
    MissingDeclaration(Vec<String>),
}

/// The mathematical value of an [`AnalysisError`].
pub enum Failure {
    IndefiniteSize,
    IncompatibleTypes,
    Pending,
    MissingDeclaration(Seq<Seq<char>>),
}

impl View for AnalysisError {
    type V = Failure;

    open spec fn view(&self) -> Failure {
        match *self {
            AnalysisError::IndefiniteSize => Failure::IndefiniteSize,
            AnalysisError::IncompatibleTypes => Failure::IncompatibleTypes,
            AnalysisError::Pending => Failure::Pending,
            AnalysisError::MissingDeclaration(names) => Failure::MissingDeclaration(
                names@.map_values(|n: String| n@),
            ),
        }
    }
}

/// The outcome of analysing a block.
pub type BlockAnalysisResult = Result<Arity, AnalysisError>;

/// The outcomes for the functions of one namespace, in the order of its functions;
/// nothing for a function that was not analysed yet.
pub type NamespaceArities = Vec<Option<BlockAnalysisResult>>;

/// The outcomes for every namespace of a program.
pub type AritiesByNamespace = Vec<NamespaceArities>;

/// The mathematical value of a [`BlockAnalysisResult`].
pub type Outcome = Result<ArityModel, Failure>;

/// The value of an outcome.
pub open spec fn outcome_of(r: BlockAnalysisResult) -> Outcome {
    match r {
        Ok(a) => Ok(a@),
        Err(e) => Err(e@),
    }
}

/// The value of an entry of the table.
pub open spec fn entry_of(e: Option<BlockAnalysisResult>) -> Option<Outcome> {
    match e {
        Some(r) => Some(outcome_of(r)),
        None => None,
    }
}

/// The value of the table.
pub open spec fn table_of(t: Seq<NamespaceArities>) -> Seq<Seq<Option<Outcome>>> {
    t.map_values(
        |n: NamespaceArities| n@.map_values(|e: Option<BlockAnalysisResult>| entry_of(e)),
    )
}

/// What an analysis knows: the program, the effects found so far, and the namespace
/// whose code is being analysed.
pub struct Analysis<'a> {
    pub arities: AritiesByNamespace,
    pub namespace: NamespaceId,
    pub program: &'a Program,
}

/// The mathematical value of an [`Analysis`].
pub struct Knowledge {
    pub program: Seq<NamespaceModel>,
    pub table: Seq<Seq<Option<Outcome>>>,
    pub namespace: NamespaceId,
}

impl<'a> View for Analysis<'a> {
    type V = Knowledge;

    open spec fn view(&self) -> Knowledge {
        Knowledge {
            program: self.program@,
            table: table_of(self.arities@),
            namespace: self.namespace,
        }
    }
}

/// Every effect in the table is well-formed.
pub open spec fn table_wf(table: Seq<Seq<Option<Outcome>>>) -> bool {
    forall|n: int, i: int|
        0 <= n < table.len() && 0 <= i < table[n].len() ==> match #[trigger] table[n][i] {
            Some(Ok(a)) => a.wf(),
            _ => true,
        }
}

impl Knowledge {
    /// The program is well-formed, the namespace is one of its namespaces, and every
    /// effect in the table is well-formed.
    pub open spec fn wf(self) -> bool {
        &&& program_wf(self.program)
        &&& self.namespace < self.program.len()
        &&& table_wf(self.table)
    }
}

/// The failure that a failed combination of effects stands for.
pub open spec fn failure_of(e: ArityCombineError) -> Failure {
    match e {
        ArityCombineError::DifferingSizes => Failure::IndefiniteSize,
        ArityCombineError::IncompatibleTypes => Failure::IncompatibleTypes,
    }
}

/// The effect of one block followed by another, as an outcome.
pub open spec fn then(a: ArityModel, b: ArityModel) -> Outcome {
    match serial_of(a, b) {
        Ok(r) => Ok(r),
        Err(e) => Err(failure_of(e)),
    }
}

/// The effect of either of two blocks, as an outcome.
pub open spec fn or_else(a: ArityModel, b: ArityModel) -> Outcome {
    match parallel_of(a, b) {
        Ok(r) => Ok(r),
        Err(e) => Err(failure_of(e)),
    }
}

/// Whether a condition always or never holds: known when its last term is a literal.
pub open spec fn truthiness(block: Seq<TermModel>) -> Option<bool> {
    if block.len() == 0 {
        None
    } else {
        match block.last() {
            TermModel::String(s) => Some(s.len() > 0),
            TermModel::Number(n) => Some(n.truthy()),
            TermModel::Bool(b) => Some(b),
            TermModel::Address(_) => Some(true),
            _ => None,
        }
    }
}

/// The effect of reading a name that nothing binds yet.
pub open spec fn recall_model(name: Seq<char>) -> ArityModel {
    ArityModel {
        pops: Seq::empty(),
        pushes: seq![Resultant::Recall(name)],
        captures: seq![Effect { name, expects: true, defines: None }],
    }
}

/// The effect of binding the top of the stack to a capture variable.
pub open spec fn capture_model(name: Seq<char>) -> ArityModel {
    ArityModel {
        pops: seq![Type::Unknown],
        pushes: Seq::empty(),
        captures: seq![
            Effect {
                name,
                expects: false,
                defines: Some(
                    (Resultant::Dependent(MultiIndex::unit(0)), crate::lang::arity::Certainty::Always),
                ),
            },
        ],
    }
}

/// The effect of a literal.
pub open spec fn literal_model(t: Type) -> ArityModel {
    ArityModel { pops: Seq::empty(), pushes: seq![Resultant::Normal(t)], captures: Seq::empty() }
}

/// The effect of calling `name`: that of the intrinsic, if it names one; else that of
/// the function it resolves to, pending while that is not known; else that of reading a
/// capture variable.
pub open spec fn name_arity(k: Knowledge, name: Seq<char>) -> Outcome {
    match intrinsic_named(name) {
        Some(Intrinsic::Eval) => Err(Failure::IndefiniteSize),
        Some(i) => Ok(intrinsic_arity(i)),
        None => match resolution(k.program, k.namespace, name) {
            None => Ok(recall_model(name)),
            Some((ns, i)) => if ns < k.table.len() && 0 <= i < k.table[ns as int].len() {
                match k.table[ns as int][i] {
                    Some(r) => r,
                    None => Err(Failure::Pending),
                }
            } else {
                Err(Failure::Pending)
            },
        },
    }
}

/// The effect with one slot of unknown type taken off: what a condition leaves once
/// its outcome was tested.
pub open spec fn tested(a: ArityModel) -> ArityModel {
    match a.popped(Type::Unknown) {
        Ok((s, _)) => s,
        Err(_) => a,
    }
}

/// The effect of a term.
pub open spec fn term_arity(k: Knowledge, t: TermModel) -> Outcome
    decreases t, 0int,
{
    match t {
        TermModel::String(_) => Ok(literal_model(Type::String)),
        TermModel::Number(_) => Ok(literal_model(Type::Number)),
        TermModel::Bool(_) => Ok(literal_model(Type::Bool)),
        TermModel::Address(_) => Ok(literal_model(Type::Address)),
        TermModel::Name(n, _) => name_arity(k, n),
        TermModel::Capture(n, _) => Ok(capture_model(n)),
        TermModel::Branch(arms) => branch_arity(k, arms, 0, ArityModel::noop(), None),
        TermModel::Loop(pre, body, post) => {
            let before = match pre {
                Some(b) => match block_arity(k, b, b.len()) {
                    Ok(a) => Ok(Some(tested(a))),
                    Err(e) => Err(e),
                },
                None => Ok(None),
            };
            match before {
                Err(e) => Err(e),
                Ok(pre_arity) => match block_arity(k, body, body.len()) {
                    Err(e) => Err(e),
                    Ok(main) => {
                        let after = match post {
                            Some(b) => match block_arity(k, b, b.len()) {
                                Ok(a) => Ok(Some(tested(a))),
                                Err(e) => Err(e),
                            },
                            None => Ok(None),
                        };
                        match after {
                            Err(e) => Err(e),
                            Ok(post_arity) => if pre_arity is None && post_arity is None {
                                Err(Failure::IndefiniteSize)
                            } else {
                                loop_rounds(
                                    pre_arity,
                                    main,
                                    post_arity,
                                    ArityModel::noop(),
                                    None,
                                    Seq::empty(),
                                )
                            },
                        }
                    },
                }
            }
        },
    }
}

/// The effect of the first `n` terms of a block.
pub open spec fn block_arity(k: Knowledge, block: Seq<TermModel>, n: nat) -> Outcome
    decreases block, n,
{
    if n == 0 || n > block.len() {
        Ok(ArityModel::noop())
    } else {
        match block_arity(k, block, (n - 1) as nat) {
            Err(e) => Err(e),
            Ok(a) => match term_arity(k, block[n - 1]) {
                Err(e) => Err(e),
                Ok(t) => then(a, t),
            },
        }
    }
}

/// One more way a branch or a loop can end, added to those found before.
pub open spec fn with_ending(combined: Option<ArityModel>, a: ArityModel) -> Outcome {
    match combined {
        Some(before) => or_else(before, a),
        None => Ok(a),
    }
}

/// The effect of a branch from arm `i` on: `running` is the effect of the conditions
/// tested so far, `combined` that of the arms that could have run.
pub open spec fn branch_arity(
    k: Knowledge,
    arms: Seq<(Seq<TermModel>, Seq<TermModel>)>,
    i: nat,
    running: ArityModel,
    combined: Option<ArityModel>,
) -> Outcome
    decreases arms, arms.len() - i,
{
    if i >= arms.len() {
        with_ending(combined, running)
    } else {
        match block_arity(k, arms[i as int].0, arms[i as int].0.len()) {
            Err(e) => Err(e),
            Ok(c) => match then(running, tested(c)) {
                Err(e) => Err(e),
                Ok(tested_so_far) => {
                    let truth = truthiness(arms[i as int].0);
                    if truth == Some(false) {
                        branch_arity(k, arms, i + 1, tested_so_far, combined)
                    } else {
                        match block_arity(k, arms[i as int].1, arms[i as int].1.len()) {
                            Err(e) => Err(e),
                            Ok(body) => match then(tested_so_far, body) {
                                Err(e) => Err(e),
                                Ok(arm) => match with_ending(combined, arm) {
                                    Err(e) => Err(e),
                                    Ok(all) => if truth == Some(true) {
                                        Ok(all)
                                    } else {
                                        branch_arity(k, arms, i + 1, tested_so_far, Some(all))
                                    },
                                },
                            },
                        }
                    }
                },
            },
        }
    }
}

/// The running effect after a condition, and the ways out found so far with the way
/// out through that condition added.
pub open spec fn exit_recorded(running: ArityModel, possible: Option<ArityModel>, next: ArityModel) -> Result<
    (ArityModel, Option<ArityModel>),
    Failure,
> {
    match then(running, next) {
        Err(e) => Err(e),
        Ok(r) => match with_ending(possible, r) {
            Err(e) => Err(e),
            Ok(p) => Ok((r, Some(p))),
        },
    }
}

/// One of the first `n` effects seen is `a`.
pub open spec fn seen_before(seen: Seq<ArityModel>, a: ArityModel, n: nat) -> bool
    decreases n,
{
    n > 0 && (seen[n - 1] == a || seen_before(seen, a, (n - 1) as nat))
}

/// The most running effects a loop analysis remembers.
pub open spec fn seen_limit() -> nat {
    usize::MAX as nat
}

/// The effect of a loop: the ways out met while the running effect goes round the
/// loop, until it comes back to an effect it had before.
pub open spec fn loop_rounds(
    pre: Option<ArityModel>,
    main: ArityModel,
    post: Option<ArityModel>,
    running: ArityModel,
    possible: Option<ArityModel>,
    seen: Seq<ArityModel>,
) -> Outcome
    decreases seen_limit() - seen.len(),
{
    if seen_before(seen, running, seen.len()) {
        match possible {
            Some(p) => Ok(p),
            None => Err(Failure::IndefiniteSize),
        }
    } else if seen.len() >= seen_limit() {
        Err(Failure::IndefiniteSize)
    } else {
        match round_of(pre, main, post, running, possible) {
            Err(e) => Err(e),
            Ok((r, p)) => loop_rounds(pre, main, post, r, p, seen.push(running)),
        }
    }
}

/// Once round a loop: the running effect and the ways out afterwards.
pub open spec fn round_of(
    pre: Option<ArityModel>,
    main: ArityModel,
    post: Option<ArityModel>,
    running: ArityModel,
    possible: Option<ArityModel>,
) -> Result<(ArityModel, Option<ArityModel>), Failure> {
    let first = match pre {
        Some(c) => exit_recorded(running, possible, c),
        None => Ok((running, possible)),
    };
    match first {
        Err(e) => Err(e),
        Ok((now, exit)) => match then(now, main) {
            Err(e) => Err(e),
            Ok(done) => match post {
                Some(c) => exit_recorded(done, exit, c),
                None => Ok((done, exit)),
            },
        },
    }
}

/// Once a term of a block has failed, the block fails the same way however far it is read.
pub proof fn block_failure_sticks(k: Knowledge, block: Seq<TermModel>, i: nat, n: nat)
    requires
        block_arity(k, block, i) is Err,
        i <= n <= block.len(),
    ensures
        block_arity(k, block, n) == block_arity(k, block, i),
    decreases n,
{
    if n > i {
        block_failure_sticks(k, block, i, (n - 1) as nat);
    }
}

fn block_is_always_truthy(b: &Block) -> (r: Option<bool>)
    ensures
        r == truthiness(b@),
{
    let n = b.terms.len();
    if n == 0 {
        return None;
    }
    assert(b@.last() == term_model(b.terms@[n - 1]));
    match &b.terms[n - 1] {
        Term::String(t) => Some(t.as_str().unicode_len() > 0),
        Term::Number(t) => Some(t.is_truthy()),
        Term::Bool(v) => Some(*v),
        Term::Address(_) => Some(true),
        _ => None,
    }
}

fn combine_failure(e: ArityCombineError) -> (r: AnalysisError)
    ensures
        r@ == failure_of(e),
{
    match e {
        ArityCombineError::DifferingSizes => AnalysisError::IndefiniteSize,
        ArityCombineError::IncompatibleTypes => AnalysisError::IncompatibleTypes,
    }
}

fn in_sequence(a: &Arity, b: &Arity) -> (r: BlockAnalysisResult)
    requires
        a@.wf(),
        b@.wf(),
    ensures
        outcome_of(r) == then(a@, b@),
        r is Ok ==> r->Ok_0@.wf(),
{
    match Arity::serial(a, b) {
        Ok(x) => Ok(x),
        Err(e) => Err(combine_failure(e)),
    }
}

fn as_alternative(combined: Option<Arity>, a: Arity) -> (r: BlockAnalysisResult)
    requires
        a@.wf(),
        combined is Some ==> combined->0@.wf(),
    ensures
        outcome_of(r) == with_ending(
            match combined {
                Some(c) => Some(c@),
                None => None,
            },
            a@,
        ),
        r is Ok ==> r->Ok_0@.wf(),
{
    match combined {
        Some(before) => match Arity::parallel(&before, &a) {
            Ok(x) => Ok(x),
            Err(e) => Err(combine_failure(e)),
        },
        None => Ok(a),
    }
}

fn without_test(a: Arity) -> (r: Arity)
    requires
        a@.wf(),
    ensures
        r@ == tested(a@),
        r@.wf(),
{
    let mut a = a;
    let _ = a.pop(Type::Unknown);
    a
}

/// The value of an optional effect.
pub open spec fn optional_arity(a: Option<Arity>) -> Option<ArityModel> {
    match a {
        Some(x) => Some(x@),
        None => None,
    }
}

/// The effect of a condition: that of its block, with the tested slot taken off.
pub fn analyze_condition(analysis: &Analysis, b: &Block) -> (r: BlockAnalysisResult)
    requires
        analysis@.wf(),
    ensures
        outcome_of(r) == match block_arity(analysis@, b@, b@.len()) {
            Ok(a) => Ok(tested(a)),
            Err(e) => Err(e),
        },
        r is Ok ==> r->Ok_0@.wf(),
    decreases b, 1int,
{
    match analyze_block(analysis, b) {
        Ok(a) => Ok(without_test(a)),
        Err(e) => Err(e),
    }
}

/// The effect of a block: the effects of its terms, one after the other.
pub fn analyze_block(analysis: &Analysis, b: &Block) -> (r: BlockAnalysisResult)
    requires
        analysis@.wf(),
    ensures
        outcome_of(r) == block_arity(analysis@, b@, b@.len()),
        r is Ok ==> r->Ok_0@.wf(),
    decreases b, 0int,
{
    let mut a = Arity::noop();
    let mut i: usize = 0;
    while i < b.terms.len()
        invariant
            i <= b.terms.len(),
            analysis@.wf(),
            a@.wf(),
            block_arity(analysis@, b@, i as nat) == Ok::<ArityModel, Failure>(a@),
        decreases b.terms.len() - i,
    {
        assert(b@[i as int] == term_model(b.terms@[i as int]));
        match analyze_term(analysis, &b.terms[i]) {
            Err(e) => {
                proof {
                    block_failure_sticks(analysis@, b@, (i + 1) as nat, b@.len());
                }
                return Err(e);
            },
            Ok(t) => {
                match in_sequence(&a, &t) {
                    Err(e) => {
                        proof {
                            block_failure_sticks(analysis@, b@, (i + 1) as nat, b@.len());
                        }
                        return Err(e);
                    },
                    Ok(next) => {
                        a = next;
                    },
                }
            },
        }
        i += 1;
    }
    Ok(a)
}

fn analyze_name(analysis: &Analysis, n: &str) -> (r: BlockAnalysisResult)
    requires
        analysis@.wf(),
    ensures
        outcome_of(r) == name_arity(analysis@, n@),
        r is Ok ==> r->Ok_0@.wf(),
{
    match get_intrinsic_arity(n) {
        Err(e) => {
            return Err(AnalysisError::IndefiniteSize);
        },
        Ok(Some(arity)) => {
            return Ok(arity);
        },
        Ok(None) => {},
    }
    let (ns, i) = match analysis.program.resolve_function(analysis.namespace, n) {
        Some(found) => found,
        None => {
            return Ok(Arity::recall(n));
        },
    };
    if ns >= analysis.arities.len() || i >= analysis.arities[ns].len() {
        return Err(AnalysisError::Pending);
    }
    assert(analysis@.table[ns as int][i as int] == entry_of(analysis.arities@[ns as int]@[i as int]));
    assert(intrinsic_named(n@) is None);
    assert(resolution(analysis@.program, analysis@.namespace, n@) == Some((ns, i as int)));
    match &analysis.arities[ns][i] {
        Some(Ok(a)) => Ok(a.duplicate()),
        Some(Err(e)) => Err(copy_failure(e)),
        None => Err(AnalysisError::Pending),
    }
}

/// A copy of a failure.
pub fn copy_failure(e: &AnalysisError) -> (r: AnalysisError)
    ensures
        r@ == e@,
{
    match e {
        AnalysisError::IndefiniteSize => AnalysisError::IndefiniteSize,
        AnalysisError::IncompatibleTypes => AnalysisError::IncompatibleTypes,
        AnalysisError::Pending => AnalysisError::Pending,
        AnalysisError::MissingDeclaration(names) => {
            let mut out: Vec<String> = Vec::new();
            let mut i: usize = 0;
            while i < names.len()
                invariant
                    i <= names.len(),
                    out.len() == i,
                    forall|k: int| 0 <= k < i ==> (#[trigger] out@[k])@ == names@[k]@,
                decreases names.len() - i,
            {
                out.push(names[i].clone());
                i += 1;
            }
            assert(out@.map_values(|n: String| n@) =~= names@.map_values(|n: String| n@));
            AnalysisError::MissingDeclaration(out)
        },
    }
}

fn analyze_branch(analysis: &Analysis, branch: &Branch) -> (r: BlockAnalysisResult)
    requires
        analysis@.wf(),
    ensures
        outcome_of(r) == branch_arity(
            analysis@,
            arms_model(branch.arms@),
            0,
            ArityModel::noop(),
            None,
        ),
        r is Ok ==> r->Ok_0@.wf(),
    decreases branch, 2int,
{
    let ghost arms = arms_model(branch.arms@);
    let ghost goal = branch_arity(analysis@, arms, 0, ArityModel::noop(), None);
    let mut running = Arity::noop();
    let mut combined: Option<Arity> = None;
    let mut i: usize = 0;
    while i < branch.arms.len()
        invariant
            i <= branch.arms.len(),
            analysis@.wf(),
            arms == arms_model(branch.arms@),
            running@.wf(),
            combined is Some ==> combined->0@.wf(),
            goal == branch_arity(analysis@, arms, 0, ArityModel::noop(), None),
            goal == branch_arity(analysis@, arms, i as nat, running@, optional_arity(combined)),
        decreases branch.arms.len() - i,
    {
        assert(arms[i as int] == (branch.arms@[i as int].0@, branch.arms@[i as int].1@));
        let arm = &branch.arms[i];
        let condition_arity = match analyze_condition(analysis, &arm.0) {
            Ok(c) => c,
            Err(e) => {
                return Err(e);
            },
        };
        running = match in_sequence(&running, &condition_arity) {
            Ok(x) => x,
            Err(e) => {
                return Err(e);
            },
        };
        let truth = block_is_always_truthy(&arm.0);
        let possible = match truth {
            Some(false) => false,
            _ => true,
        };
        let last_arm = match truth {
            Some(true) => true,
            _ => false,
        };
        if possible {
            let block_arity = match analyze_block(analysis, &arm.1) {
                Ok(x) => x,
                Err(e) => {
                    return Err(e);
                },
            };
            let arity = match in_sequence(&running, &block_arity) {
                Ok(x) => x,
                Err(e) => {
                    return Err(e);
                },
            };
            let all = match as_alternative(combined, arity) {
                Ok(x) => x,
                Err(e) => {
                    return Err(e);
                },
            };
            if last_arm {
                return Ok(all);
            }
            combined = Some(all);
        }
        i += 1;
    }
    as_alternative(combined, running)
}

fn record_next_exit_arity(running: Arity, possible: Option<Arity>, next: &Arity) -> (r: Result<
    (Arity, Option<Arity>),
    AnalysisError,
>)
    requires
        running@.wf(),
        next@.wf(),
        possible is Some ==> possible->0@.wf(),
    ensures
        match exit_recorded(running@, optional_arity(possible), next@) {
            Ok((a, p)) => r is Ok && r->Ok_0.0@ == a && optional_arity(r->Ok_0.1) == p
                && r->Ok_0.0@.wf() && r->Ok_0.1 is Some && r->Ok_0.1->0@.wf(),
            Err(e) => r is Err && r->Err_0@ == e,
        },
{
    let after = match in_sequence(&running, next) {
        Ok(x) => x,
        Err(e) => {
            return Err(e);
        },
    };
    let copy = after.duplicate();
    match as_alternative(possible, copy) {
        Ok(p) => Ok((after, Some(p))),
        Err(e) => Err(e),
    }
}

fn was_seen(seen: &Vec<Arity>, a: &Arity) -> (r: bool)
    ensures
        r == seen_before(seen@.map_values(|x: Arity| x@), a@, seen.len() as nat),
{
    let mut i: usize = 0;
    let mut found = false;
    while i < seen.len()
        invariant
            i <= seen.len(),
            found == seen_before(seen@.map_values(|x: Arity| x@), a@, i as nat),
        decreases seen.len() - i,
    {
        assert(seen@.map_values(|x: Arity| x@)[i as int] == seen@[i as int]@);
        if seen[i].same(a) {
            found = true;
        }
        i += 1;
    }
    found
}

fn analyze_loop(analysis: &Analysis, loop_v: &Loop) -> (r: BlockAnalysisResult)
    requires
        analysis@.wf(),
    ensures
        outcome_of(r) == term_arity(analysis@, term_model(Term::Loop(*loop_v))),
        r is Ok ==> r->Ok_0@.wf(),
    decreases loop_v, 2int,
{
    let pre_arity = match &loop_v.pre_condition {
        Some(pre) => match analyze_condition(analysis, pre) {
            Ok(a) => Some(a),
            Err(e) => {
                return Err(e);
            },
        },
        None => None,
    };
    let main_arity = match analyze_block(analysis, &loop_v.body) {
        Ok(a) => a,
        Err(e) => {
            return Err(e);
        },
    };
    let post_arity = match &loop_v.post_condition {
        Some(post) => match analyze_condition(analysis, post) {
            Ok(a) => Some(a),
            Err(e) => {
                return Err(e);
            },
        },
        None => None,
    };
    if pre_arity.is_none() && post_arity.is_none() {
        return Err(AnalysisError::IndefiniteSize);
    }
    let ghost pre = optional_arity(pre_arity);
    let ghost post = optional_arity(post_arity);
    let ghost main = main_arity@;
    let ghost goal = loop_rounds(pre, main, post, ArityModel::noop(), None, Seq::empty());
    let mut running_arity = Arity::noop();
    let mut possible_arity: Option<Arity> = None;
    let mut seen_states: Vec<Arity> = Vec::new();
    assert(seen_states@.map_values(|x: Arity| x@) =~= Seq::empty());
    loop
        invariant
            pre == optional_arity(pre_arity),
            post == optional_arity(post_arity),
            main == main_arity@,
            main.wf(),
            pre_arity is Some ==> pre_arity->0@.wf(),
            post_arity is Some ==> post_arity->0@.wf(),
            running_arity@.wf(),
            possible_arity is Some ==> possible_arity->0@.wf(),
            goal == term_arity(analysis@, term_model(Term::Loop(*loop_v))),
            goal == loop_rounds(
                pre,
                main,
                post,
                running_arity@,
                optional_arity(possible_arity),
                seen_states@.map_values(|x: Arity| x@),
            ),
        decreases usize::MAX - seen_states.len(),
    {
        if was_seen(&seen_states, &running_arity) {
            return match possible_arity {
                Some(p) => Ok(p),
                None => Err(AnalysisError::IndefiniteSize),
            };
        }
        if seen_states.len() >= usize::MAX {
            return Err(AnalysisError::IndefiniteSize);
        }
        let ghost before = seen_states@.map_values(|x: Arity| x@);
        let ghost was = running_arity@;
        seen_states.push(running_arity.duplicate());
        assert(seen_states@.map_values(|x: Arity| x@) =~= before.push(was));
        match one_round(&pre_arity, &main_arity, &post_arity, running_arity, possible_arity) {
            Ok((r, p)) => {
                running_arity = r;
                possible_arity = p;
            },
            Err(e) => {
                return Err(e);
            },
        }
    }
}

fn one_round(
    pre: &Option<Arity>,
    main: &Arity,
    post: &Option<Arity>,
    running: Arity,
    possible: Option<Arity>,
) -> (r: Result<(Arity, Option<Arity>), AnalysisError>)
    requires
        main@.wf(),
        running@.wf(),
        pre is Some ==> pre->0@.wf(),
        post is Some ==> post->0@.wf(),
        possible is Some ==> possible->0@.wf(),
    ensures
        match round_of(
            optional_arity(*pre),
            main@,
            optional_arity(*post),
            running@,
            optional_arity(possible),
        ) {
            Ok((a, p)) => r is Ok && r->Ok_0.0@ == a && optional_arity(r->Ok_0.1) == p
                && r->Ok_0.0@.wf() && (r->Ok_0.1 is Some ==> r->Ok_0.1->0@.wf()),
            Err(e) => r is Err && r->Err_0@ == e,
        },
{
    let (now, exit) = match pre {
        Some(c) => match record_next_exit_arity(running, possible, c) {
            Ok(v) => v,
            Err(e) => {
                return Err(e);
            },
        },
        None => (running, possible),
    };
    let done = match in_sequence(&now, main) {
        Ok(x) => x,
        Err(e) => {
            return Err(e);
        },
    };
    match post {
        Some(c) => record_next_exit_arity(done, exit, c),
        None => Ok((done, exit)),
    }
}

/// The effect of a term.
pub fn analyze_term(analysis: &Analysis, term: &Term) -> (r: BlockAnalysisResult)
    requires
        analysis@.wf(),
    ensures
        outcome_of(r) == term_arity(analysis@, term_model(*term)),
        r is Ok ==> r->Ok_0@.wf(),
    decreases term, 3int,
{
    match term {
        Term::String(_) => Ok(Arity::literal(Type::String)),
        Term::Number(_) => Ok(Arity::literal(Type::Number)),
        Term::Bool(_) => Ok(Arity::literal(Type::Bool)),
        Term::Address(_) => Ok(Arity::literal(Type::Address)),
        Term::Name(n, _) => analyze_name(analysis, n.as_str()),
        Term::Capture(n, _) => Ok(Arity::capture(n.as_str())),
        Term::Branch(branch) => analyze_branch(analysis, branch),
        Term::Loop(loop_v) => analyze_loop(analysis, loop_v),
    }
}

/// The names among the first `k` capture effects that are read before they are defined.
pub open spec fn waiting(captures: Seq<Effect>, k: nat) -> Seq<Seq<char>>
    decreases k,
{
    if k == 0 {
        Seq::empty()
    } else if captures[k - 1].expects {
        waiting(captures, (k - 1) as nat).push(captures[k - 1].name)
    } else {
        waiting(captures, (k - 1) as nat)
    }
}

/// The outcome for a function, seen from outside: a body that reads names nothing
/// defines fails with those names, and the capture variables of any other stay inside.
pub open spec fn isolated(o: Outcome) -> Outcome {
    match o {
        Err(e) => Err(e),
        Ok(a) => {
            let names = waiting(a.captures, a.captures.len());
            if names.len() > 0 {
                Err(Failure::MissingDeclaration(names))
            } else {
                Ok(ArityModel { pops: a.pops, pushes: a.pushes, captures: Seq::empty() })
            }
        },
    }
}

/// The outcome for a function, seen from outside.
pub fn isolate(r: BlockAnalysisResult) -> (out: BlockAnalysisResult)
    requires
        r is Ok ==> r->Ok_0@.wf(),
    ensures
        outcome_of(out) == isolated(outcome_of(r)),
        out is Ok ==> out->Ok_0@.wf(),
{
    match r {
        Err(e) => Err(e),
        Ok(a) => {
            let mut names: Vec<String> = Vec::new();
            let mut i: usize = 0;
            assert(names@.map_values(|n: String| n@) =~= Seq::empty());
            while i < a.captures.len()
                invariant
                    i <= a.captures.len(),
                    names@.map_values(|n: String| n@) == waiting(a@.captures, i as nat),
                decreases a.captures.len() - i,
            {
                assert(a@.captures[i as int] == effect_of(a.captures@[i as int]));
                let ghost before = names@.map_values(|n: String| n@);
                if a.captures[i].1.expects {
                    names.push(a.captures[i].0.clone());
                    assert(names@.map_values(|n: String| n@) =~= before.push(
                        a.captures@[i as int].0@,
                    ));
                }
                i += 1;
            }
            if names.len() > 0 {
                Err(AnalysisError::MissingDeclaration(names))
            } else {
                let Arity { pops, pushes, captures: _ } = a;
                let out = Arity { pops, pushes, captures: Vec::new() };
                assert(out@.captures =~= Seq::empty());
                Ok(out)
            }
        },
    }
}

/// The table has one entry for every function of the program.
pub open spec fn shaped(program: Seq<NamespaceModel>, table: Seq<Seq<Option<Outcome>>>) -> bool {
    &&& table.len() == program.len()
    &&& forall|n: int| 0 <= n < table.len() ==> (#[trigger] table[n]).len() == program[n].functions.len()
}

/// The table in which no function was analysed yet.
pub open spec fn blank(program: Seq<NamespaceModel>) -> Seq<Seq<Option<Outcome>>> {
    Seq::new(
        program.len(),
        |n: int| Seq::new(program[n].functions.len(), |i: int| None::<Outcome>),
    )
}

/// The table after function `i` of namespace `ns` had its turn: a function without an
/// entry gets the outcome of its body, unless that is still pending.
pub open spec fn step_function(
    program: Seq<NamespaceModel>,
    table: Seq<Seq<Option<Outcome>>>,
    ns: int,
    i: int,
) -> Seq<Seq<Option<Outcome>>> {
    if table[ns][i] is Some {
        table
    } else {
        let k = Knowledge { program, table, namespace: ns as usize };
        let body = program[ns].functions[i].body;
        let o = isolated(block_arity(k, body, body.len()));
        if o == Err::<ArityModel, Failure>(Failure::Pending) {
            table
        } else {
            table.update(ns, table[ns].update(i, Some(o)))
        }
    }
}

/// The table after the first `k` functions of namespace `ns` had their turn.
pub open spec fn after_functions(
    program: Seq<NamespaceModel>,
    table: Seq<Seq<Option<Outcome>>>,
    ns: int,
    k: nat,
) -> Seq<Seq<Option<Outcome>>>
    decreases k,
{
    if k == 0 {
        table
    } else {
        step_function(program, after_functions(program, table, ns, (k - 1) as nat), ns, k - 1)
    }
}

/// The table after the functions of the first `n` namespaces had their turn.
pub open spec fn after_namespaces(
    program: Seq<NamespaceModel>,
    table: Seq<Seq<Option<Outcome>>>,
    n: nat,
) -> Seq<Seq<Option<Outcome>>>
    decreases n,
{
    if n == 0 {
        table
    } else {
        after_functions(
            program,
            after_namespaces(program, table, (n - 1) as nat),
            n - 1,
            program[n - 1].functions.len(),
        )
    }
}

/// How many of the first `k` entries of a row are empty.
pub open spec fn open_in_row(row: Seq<Option<Outcome>>, k: nat) -> nat
    decreases k,
{
    if k == 0 {
        0
    } else {
        open_in_row(row, (k - 1) as nat) + if row[k - 1] is None {
            1nat
        } else {
            0nat
        }
    }
}

/// How many entries of the first `n` rows are empty.
pub open spec fn open_entries(table: Seq<Seq<Option<Outcome>>>, n: nat) -> nat
    decreases n,
{
    if n == 0 {
        0
    } else {
        open_entries(table, (n - 1) as nat) + open_in_row(table[n - 1], table[n - 1].len())
    }
}

/// The table once round after round over all functions fills no further entry.
pub open spec fn analysis_of(program: Seq<NamespaceModel>, table: Seq<Seq<Option<Outcome>>>) -> Seq<
    Seq<Option<Outcome>>,
>
    decreases open_entries(table, table.len()),
{
    let next = after_namespaces(program, table, program.len());
    if open_entries(next, next.len()) < open_entries(table, table.len()) {
        analysis_of(program, next)
    } else {
        next
    }
}

/// Filling an empty entry of a row leaves one empty entry fewer.
pub proof fn filling_closes_one(row: Seq<Option<Outcome>>, i: int, v: Option<Outcome>, k: nat)
    requires
        0 <= i < row.len(),
        row[i] is None,
        v is Some,
        k <= row.len(),
    ensures
        open_in_row(row.update(i, v), k) + (if i < k {
            1nat
        } else {
            0nat
        }) == open_in_row(row, k),
    decreases k,
{
    if k > 0 {
        filling_closes_one(row, i, v, (k - 1) as nat);
    }
}

/// Replacing a row changes the count of empty entries by what it changes in the row.
pub proof fn replacing_row_counts(table: Seq<Seq<Option<Outcome>>>, ns: int, row: Seq<Option<Outcome>>, n: nat)
    requires
        0 <= ns < table.len(),
        n <= table.len(),
    ensures
        open_entries(table.update(ns, row), n) + (if ns < n {
            open_in_row(table[ns], table[ns].len())
        } else {
            0nat
        }) == open_entries(table, n) + (if ns < n {
            open_in_row(row, row.len())
        } else {
            0nat
        }),
    decreases n,
{
    if n > 0 {
        replacing_row_counts(table, ns, row, (n - 1) as nat);
    }
}

/// One turn of a function keeps the shape of the table and the well-formedness of its
/// effects, and fills at most the function's own entry.
pub proof fn step_function_facts(
    program: Seq<NamespaceModel>,
    table: Seq<Seq<Option<Outcome>>>,
    ns: int,
    i: int,
)
    requires
        shaped(program, table),
        0 <= ns < program.len(),
        0 <= i < program[ns].functions.len(),
    ensures
        shaped(program, step_function(program, table, ns, i)),
        open_entries(step_function(program, table, ns, i), table.len()) <= open_entries(
            table,
            table.len(),
        ),
        step_function(program, table, ns, i) != table ==> open_entries(
            step_function(program, table, ns, i),
            table.len(),
        ) < open_entries(table, table.len()),
{
    let next = step_function(program, table, ns, i);
    if next != table {
        let row = next[ns];
        assert(table[ns][i] is None);
        assert(row == table[ns].update(i, row[i]));
        filling_closes_one(table[ns], i, row[i], table[ns].len());
        replacing_row_counts(table, ns, row, table.len());
        assert forall|n: int| 0 <= n < next.len() implies (#[trigger] next[n]).len()
            == program[n].functions.len() by {
            if n != ns {
                assert(next[n] == table[n]);
            }
        }
    }
}

fn blank_table(program: &Program) -> (r: AritiesByNamespace)
    ensures
        table_of(r@) == blank(program@),
        shaped(program@, table_of(r@)),
        table_wf(table_of(r@)),
{
    let mut out: AritiesByNamespace = Vec::new();
    let mut n: usize = 0;
    while n < program.namespaces.len()
        invariant
            n <= program.namespaces.len(),
            out.len() == n,
            forall|j: int|
                0 <= j < n ==> (#[trigger] table_of(out@)[j]) == Seq::new(
                    program@[j].functions.len(),
                    |i: int| None::<Outcome>,
                ),
        decreases program.namespaces.len() - n,
    {
        let mut row: NamespaceArities = Vec::new();
        let count = program.namespaces[n].functions.len();
        assert(program@[n as int] == program.namespaces@[n as int]@);
        let mut i: usize = 0;
        while i < count
            invariant
                i <= count,
                row.len() == i,
                forall|k: int| 0 <= k < i ==> (#[trigger] row@[k]) is None,
            decreases count - i,
        {
            row.push(None);
            i += 1;
        }
        let ghost before = table_of(out@);
        let ghost rm = row@.map_values(|e: Option<BlockAnalysisResult>| entry_of(e));
        assert(rm =~= Seq::new(program@[n as int].functions.len(), |i: int| None::<Outcome>));
        out.push(row);
        assert(table_of(out@) =~= before.push(rm));
        n += 1;
    }
    assert(table_of(out@) =~= blank(program@));
    out
}

fn set_entry(table: &mut AritiesByNamespace, ns: usize, i: usize, v: BlockAnalysisResult)
    requires
        ns < old(table).len(),
        i < old(table)@[ns as int].len(),
    ensures
        table_of(final(table)@) == table_of(old(table)@).update(
            ns as int,
            table_of(old(table)@)[ns as int].update(i as int, Some(outcome_of(v))),
        ),
{
    let ghost before = table_of(table@);
    let ghost o = outcome_of(v);
    let mut row = table.remove(ns);
    let ghost rb = row@.map_values(|e: Option<BlockAnalysisResult>| entry_of(e));
    assert(rb == before[ns as int]);
    row.set(i, Some(v));
    let ghost ra = row@.map_values(|e: Option<BlockAnalysisResult>| entry_of(e));
    assert(ra =~= rb.update(i as int, Some(o)));
    table.insert(ns, row);
    assert(table_of(table@) =~= before.update(ns as int, ra));
}

/// Gives one function its turn.
fn analyze_function(program: &Program, table: AritiesByNamespace, ns: usize, i: usize) -> (r: (
    AritiesByNamespace,
    bool,
))
    requires
        program_wf(program@),
        shaped(program@, table_of(table@)),
        table_wf(table_of(table@)),
        ns < program@.len(),
        i < program@[ns as int].functions.len(),
    ensures
        table_of(r.0@) == step_function(program@, table_of(table@), ns as int, i as int),
        table_wf(table_of(r.0@)),
        r.1 <==> table_of(r.0@) != table_of(table@),
{
    let ghost before = table_of(table@);
    assert(before[ns as int][i as int] == entry_of(table@[ns as int]@[i as int]));
    if table[ns][i].is_some() {
        return (table, false);
    }
    let analysis = Analysis { arities: table, namespace: ns, program };
    assert(program@[ns as int] == program.namespaces@[ns as int]@);
    let func = &program.namespaces[ns].functions[i];
    assert(program@[ns as int].functions[i as int] == func@);
    let outcome = isolate(analyze_block(&analysis, &func.body));
    let mut table = analysis.arities;
    match outcome {
        Err(AnalysisError::Pending) => (table, false),
        other => {
            let ghost o = outcome_of(other);
            set_entry(&mut table, ns, i, other);
            proof {
                let next = table_of(table@);
                assert forall|n: int, j: int|
                    0 <= n < next.len() && 0 <= j < next[n].len() implies match #[trigger] next[n][j] {
                    Some(Ok(a)) => a.wf(),
                    _ => true,
                } by {
                    if n != ns {
                        assert(next[n] == before[n]);
                        assert(next[n][j] == before[n][j]);
                    } else if j != i {
                        assert(next[n][j] == before[n][j]);
                    }
                }
                assert(next[ns as int][i as int] is Some);
            }
            (table, true)
        },
    }
}

/// The effects of all functions of a program: round after round every function without
/// an outcome is analysed against what is known, until a round finds nothing new.
/// A function that is still without an entry then calls, directly or not, itself.
pub fn analyze_program(program: &Program) -> (r: AritiesByNamespace)
    requires
        program_wf(program@),
    ensures
        table_of(r@) == analysis_of(program@, blank(program@)),
        shaped(program@, table_of(r@)),
        table_wf(table_of(r@)),
{
    let mut table = blank_table(program);
    loop
        invariant
            program_wf(program@),
            shaped(program@, table_of(table@)),
            table_wf(table_of(table@)),
            analysis_of(program@, blank(program@)) == analysis_of(program@, table_of(table@)),
        decreases open_entries(table_of(table@), table@.len() as nat),
    {
        let ghost start = table_of(table@);
        let mut n: usize = 0;
        let mut resolved_something = false;
        while n < program.namespaces.len()
            invariant
                n <= program.namespaces.len(),
                program_wf(program@),
                shaped(program@, start),
                shaped(program@, table_of(table@)),
                table_wf(table_of(table@)),
                table_of(table@) == after_namespaces(program@, start, n as nat),
                open_entries(table_of(table@), start.len()) <= open_entries(start, start.len()),
                resolved_something <==> open_entries(table_of(table@), start.len())
                    < open_entries(start, start.len()),
            decreases program.namespaces.len() - n,
        {
            let ghost row_start = table_of(table@);
            assert(program@[n as int] == program.namespaces@[n as int]@);
            let count = program.namespaces[n].functions.len();
            let mut i: usize = 0;
            while i < count
                invariant
                    i <= count,
                    n < program.namespaces.len(),
                    count == program@[n as int].functions.len(),
                    program_wf(program@),
                    shaped(program@, start),
                    shaped(program@, table_of(table@)),
                    table_wf(table_of(table@)),
                    table_of(table@) == after_functions(program@, row_start, n as int, i as nat),
                    open_entries(table_of(table@), start.len()) <= open_entries(
                        start,
                        start.len(),
                    ),
                    resolved_something <==> open_entries(table_of(table@), start.len())
                        < open_entries(start, start.len()),
                decreases count - i,
            {
                let ghost before = table_of(table@);
                proof {
                    step_function_facts(program@, before, n as int, i as int);
                }
                let (next, filled) = analyze_function(program, table, n, i);
                table = next;
                if filled {
                    resolved_something = true;
                }
                i += 1;
            }
            n += 1;
        }
        if !resolved_something {
            return table;
        }
    }
}

fn copy_table(table: &AritiesByNamespace) -> (r: AritiesByNamespace)
    ensures
        table_of(r@) == table_of(table@),
{
    let mut out: AritiesByNamespace = Vec::new();
    let mut n: usize = 0;
    while n < table.len()
        invariant
            n <= table.len(),
            out.len() == n,
            forall|j: int| 0 <= j < n ==> (#[trigger] table_of(out@)[j]) == table_of(table@)[j],
        decreases table.len() - n,
    {
        let mut row: NamespaceArities = Vec::new();
        let mut i: usize = 0;
        while i < table[n].len()
            invariant
                n < table.len(),
                i <= table@[n as int].len(),
                row.len() == i,
                forall|k: int|
                    0 <= k < i ==> entry_of(#[trigger] row@[k]) == entry_of(table@[n as int]@[k]),
            decreases table@[n as int].len() - i,
        {
            let e = match &table[n][i] {
                Some(Ok(a)) => Some(Ok(a.duplicate())),
                Some(Err(e)) => Some(Err(copy_failure(e))),
                None => None,
            };
            row.push(e);
            i += 1;
        }
        let ghost before = table_of(out@);
        let ghost rm = row@.map_values(|e: Option<BlockAnalysisResult>| entry_of(e));
        assert(rm =~= table_of(table@)[n as int]);
        out.push(row);
        assert(table_of(out@) =~= before.push(rm));
        n += 1;
    }
    assert(table_of(out@) =~= table_of(table@));
    out
}

/// The effect of a block used in a namespace, given the effects of the functions.
pub fn analyze_block_in_namespace(
    arities: &AritiesByNamespace,
    namespace: NamespaceId,
    block: &Block,
    program: &Program,
) -> (r: BlockAnalysisResult)
    requires
        program_wf(program@),
        namespace < program@.len(),
        table_wf(table_of(arities@)),
    ensures
        outcome_of(r) == block_arity(
            Knowledge { program: program@, table: table_of(arities@), namespace },
            block@,
            block@.len(),
        ),
        r is Ok ==> r->Ok_0@.wf(),
{
    let analysis = Analysis { arities: copy_table(arities), namespace, program };
    analyze_block(&analysis, block)
}

/// A name whose effect is known and reads no capture variable is a built-in operation
/// or resolves to a function of the program whose effect is known.
pub proof fn analysed_names_resolve(k: Knowledge, name: Seq<char>)
    requires
        name_arity(k, name) is Ok,
        name_arity(k, name)->Ok_0.captures.len() == 0,
    ensures
        intrinsic_named(name) is Some || (resolution(k.program, k.namespace, name) is Some && {
            let at = resolution(k.program, k.namespace, name)->0;
            at.0 < k.table.len() && 0 <= at.1 < k.table[at.0 as int].len()
                && k.table[at.0 as int][at.1] == Some(name_arity(k, name))
        }),
{
}

} // verus!
