//! Stack effects: what a block pops, what it pushes, and what it does to capture variables.
//!
//! Every operation is specified over [`ArityModel`], the mathematical value of an [`Arity`].
use vstd::prelude::*;
use crate::lang::multi_index::MultiIndex;
use crate::lang::types::{assignable, join, meet, Type};

verus! {

/// Whether a capture variable is defined on every path or only on some.
#[derive(Copy, Clone, PartialEq, Eq, Debug, Structural)]
pub enum Certainty {
    Always,
    Sometimes,
}

/// Why two stack effects cannot be combined.
#[derive(Copy, Clone, PartialEq, Eq, Debug, Structural)]
pub enum ArityCombineError {
    DifferingSizes,
    IncompatibleTypes,
}

/// The type of a pushed slot.
#[derive(Debug, PartialEq)]
pub enum ResultantType {
    /// A known type.
    Normal(Type),
    /// The union of the types of the given popped slots.
    Dependent(MultiIndex),
    /// The type of a capture variable that is not bound yet.
    Recall(String),
}

/// The mathematical value of a [`ResultantType`].
pub enum Resultant {
    Normal(Type),
    Dependent(MultiIndex),
    Recall(Seq<char>),
}

impl View for ResultantType {
    type V = Resultant;

    open spec fn view(&self) -> Resultant {
        match *self {
            ResultantType::Normal(t) => Resultant::Normal(t),
            ResultantType::Dependent(m) => Resultant::Dependent(m),
            ResultantType::Recall(n) => Resultant::Recall(n@),
        }
    }
}

/// What a block does to one capture variable.
#[derive(Debug, PartialEq)]
pub struct VariableEffect {
    /// The block reads the variable before defining it.
    pub expects: bool,
    /// The block defines the variable, with this type and certainty.
    pub defines: Option<(ResultantType, Certainty)>,
}

/// The mathematical value of a named [`VariableEffect`].
pub struct Effect {
    pub name: Seq<char>,
    pub expects: bool,
    pub defines: Option<(Resultant, Certainty)>,
}

/// The stack effect of a block. `pops[0]` is the topmost slot it takes,
/// `pushes[0]` the lowest slot it leaves.
#[derive(Debug, PartialEq)]
pub struct Arity {
    pub pops: Vec<Type>,
    pub pushes: Vec<ResultantType>,
    pub captures: Vec<(String, VariableEffect)>,
}

/// The mathematical value of an [`Arity`].
pub struct ArityModel {
    pub pops: Seq<Type>,
    pub pushes: Seq<Resultant>,
    pub captures: Seq<Effect>,
}

/// The value of a named effect.
pub open spec fn effect_of(c: (String, VariableEffect)) -> Effect {
    Effect {
        name: c.0@,
        expects: c.1.expects,
        defines: match c.1.defines {
            Some((r, c)) => Some((r@, c)),
            None => None,
        },
    }
}

/// The values of a list of pushed types.
pub open spec fn resultants(v: Seq<ResultantType>) -> Seq<Resultant> {
    v.map_values(|r: ResultantType| r@)
}

/// The values of a list of named effects.
pub open spec fn effects(v: Seq<(String, VariableEffect)>) -> Seq<Effect> {
    v.map_values(|c: (String, VariableEffect)| effect_of(c))
}

impl View for Arity {
    type V = ArityModel;

    open spec fn view(&self) -> ArityModel {
        ArityModel {
            pops: self.pops@,
            pushes: resultants(self.pushes@),
            captures: effects(self.captures@),
        }
    }
}

impl Resultant {
    /// The slot depends on popped position `x`.
    pub open spec fn references(self, x: usize) -> bool {
        match self {
            Resultant::Dependent(m) => m.has(x),
            _ => false,
        }
    }

    /// Dependencies are sorted and name positions below `n`.
    pub open spec fn wf(self, n: int) -> bool {
        match self {
            Resultant::Dependent(m) => m.sorted() && m.below(n),
            _ => true,
        }
    }

    /// Dependencies name only slots whose type is still unknown.
    pub open spec fn normal(self, pops: Seq<Type>) -> bool {
        match self {
            Resultant::Dependent(m) => all_unknown(m, pops),
            _ => true,
        }
    }

    /// The type of a slot that may come from either of two sources.
    pub open spec fn join(self, other: Resultant) -> Resultant {
        match (self, other) {
            (Resultant::Normal(a), Resultant::Normal(b)) => Resultant::Normal(join(a, b)),
            (Resultant::Dependent(_), Resultant::Normal(n)) => Resultant::Normal(n),
            (Resultant::Normal(n), Resultant::Dependent(_)) => Resultant::Normal(n),
            (Resultant::Dependent(a), Resultant::Dependent(b)) => Resultant::Dependent(
                a.merged(b),
            ),
            (Resultant::Recall(a), Resultant::Recall(b)) => if a == b {
                Resultant::Recall(a)
            } else {
                Resultant::Normal(Type::Unknown)
            },
            (Resultant::Recall(_), Resultant::Normal(_)) => Resultant::Normal(Type::Unknown),
            (Resultant::Normal(_), Resultant::Recall(_)) => Resultant::Normal(Type::Unknown),
            (Resultant::Recall(_), Resultant::Dependent(_)) => Resultant::Normal(Type::Unknown),
            (Resultant::Dependent(_), Resultant::Recall(_)) => Resultant::Normal(Type::Unknown),
        }
    }
}

/// Some member of `m` is a member of `d`.
pub open spec fn overlaps(m: MultiIndex, d: MultiIndex) -> bool
    decreases m,
{
    d.has(m.el) || match m.next {
        Some(n) => overlaps(*n, d),
        None => false,
    }
}

/// Every slot named by `m` is still of unknown type.
pub open spec fn all_unknown(m: MultiIndex, pops: Seq<Type>) -> bool
    decreases m,
{
    pops[m.el as int] == Type::Unknown && match m.next {
        Some(n) => all_unknown(*n, pops),
        None => true,
    }
}

/// The join of the types of the slots named by `m`.
pub open spec fn joined_types(m: MultiIndex, pops: Seq<Type>) -> Type
    decreases m,
{
    match m.next {
        Some(n) => join(pops[m.el as int], joined_types(*n, pops)),
        None => pops[m.el as int],
    }
}

/// `term` can be met with the type of every slot named by `m`.
pub open spec fn compatible(m: MultiIndex, pops: Seq<Type>, term: Type) -> bool
    decreases m,
{
    meet(term, pops[m.el as int]) is Some && match m.next {
        Some(n) => compatible(*n, pops, term),
        None => true,
    }
}

/// The popped types after every slot named by `m` was fixed to `term`.
pub open spec fn settled(pops: Seq<Type>, m: MultiIndex, term: Type) -> Seq<Type> {
    Seq::new(
        pops.len(),
        |j: int|
            if m.has(j as usize) {
                term
            } else {
                pops[j]
            },
    )
}

/// A pushed type after the slots named by `m` were fixed to `term`:
/// a dependency on any of them becomes `term`.
pub open spec fn concretized(r: Resultant, m: MultiIndex, term: Type) -> Resultant {
    match r {
        Resultant::Dependent(d) => if overlaps(m, d) {
            Resultant::Normal(term)
        } else {
            r
        },
        _ => r,
    }
}

/// An effect after the slots named by `m` were fixed to `term`.
pub open spec fn effect_concretized(e: Effect, m: MultiIndex, term: Type) -> Effect {
    Effect {
        name: e.name,
        expects: e.expects,
        defines: match e.defines {
            Some((r, c)) => Some((concretized(r, m, term), c)),
            None => None,
        },
    }
}

/// A pushed type read against the popped types: a dependency on a slot
/// whose type is known is replaced by the join of the slots it names.
pub open spec fn resolved(r: Resultant, pops: Seq<Type>) -> Resultant {
    match r {
        Resultant::Dependent(m) => if all_unknown(m, pops) {
            r
        } else {
            Resultant::Normal(joined_types(m, pops))
        },
        _ => r,
    }
}

/// The position of the first effect named `name` at or after `from`.
pub open spec fn lookup(list: Seq<Effect>, name: Seq<char>, from: int) -> Option<int>
    decreases list.len() - from,
{
    if from < 0 || from >= list.len() {
        None
    } else if list[from].name == name {
        Some(from)
    } else {
        lookup(list, name, from + 1)
    }
}

/// The effect named `name`, if the list has one.
pub open spec fn find(list: Seq<Effect>, name: Seq<char>) -> Option<Effect> {
    match lookup(list, name, 0) {
        Some(i) => Some(list[i]),
        None => None,
    }
}

impl ArityModel {
    /// The effect of doing nothing.
    pub open spec fn noop() -> ArityModel {
        ArityModel { pops: Seq::empty(), pushes: Seq::empty(), captures: Seq::empty() }
    }

    /// Every dependency is sorted and names an existing popped slot.
    pub open spec fn wf(self) -> bool {
        &&& forall|i: int|
            0 <= i < self.pushes.len() ==> (#[trigger] self.pushes[i]).wf(self.pops.len() as int)
        &&& forall|i: int|
            0 <= i < self.captures.len() ==> match (#[trigger] self.captures[i]).defines {
                Some((r, _)) => r.wf(self.pops.len() as int),
                None => true,
            }
    }

    /// Every dependency names only slots whose type is still unknown.
    pub open spec fn normal(self) -> bool {
        &&& forall|i: int| 0 <= i < self.pushes.len() ==> (#[trigger] self.pushes[i]).normal(self.pops)
        &&& forall|i: int|
            0 <= i < self.captures.len() ==> match (#[trigger] self.captures[i]).defines {
                Some((r, _)) => r.normal(self.pops),
                None => true,
            }
    }

    /// The effect with the slots named by `m` fixed to `term`.
    pub open spec fn concretized(self, m: MultiIndex, term: Type) -> ArityModel {
        ArityModel {
            pops: settled(self.pops, m, term),
            pushes: self.pushes.map_values(|r: Resultant| concretized(r, m, term)),
            captures: self.captures.map_values(|e: Effect| effect_concretized(e, m, term)),
        }
    }

    /// Takes one slot of type `term`: from what the effect pushes, or else as one more
    /// thing it pops. Gives the effect afterwards and the type the taken slot stands for.
    pub open spec fn popped(self, term: Type) -> Result<(ArityModel, Resultant), ArityCombineError> {
        if self.pushes.len() == 0 {
            Ok(
                (
                    ArityModel {
                        pops: self.pops.push(term),
                        pushes: self.pushes,
                        captures: self.captures,
                    },
                    Resultant::Dependent(MultiIndex::unit(self.pops.len() as usize)),
                ),
            )
        } else {
            let rest = ArityModel {
                pops: self.pops,
                pushes: self.pushes.drop_last(),
                captures: self.captures,
            };
            match self.pushes.last() {
                Resultant::Normal(t) => if assignable(t, term) || assignable(term, t) {
                    Ok((rest, Resultant::Normal(t)))
                } else {
                    Err(ArityCombineError::IncompatibleTypes)
                },
                Resultant::Dependent(m) => if term == Type::Unknown {
                    Ok((rest, Resultant::Dependent(m)))
                } else if compatible(m, self.pops, term) {
                    Ok((rest.concretized(m, term), Resultant::Normal(term)))
                } else {
                    Err(ArityCombineError::IncompatibleTypes)
                },
                Resultant::Recall(n) => Ok(
                    (
                        rest,
                        if term == Type::Unknown {
                            Resultant::Recall(n)
                        } else {
                            Resultant::Normal(term)
                        },
                    ),
                ),
            }
        }
    }

    /// Takes the first `k` of `terms` in turn; gives the effect afterwards and,
    /// for each term, the type its slot stands for.
    pub open spec fn popped_all(self, terms: Seq<Type>, k: nat) -> Result<
        (ArityModel, Seq<Resultant>),
        ArityCombineError,
    >
        decreases k,
    {
        if k == 0 {
            Ok((self, Seq::empty()))
        } else {
            match self.popped_all(terms, (k - 1) as nat) {
                Err(e) => Err(e),
                Ok((s, rec)) => match s.popped(terms[k - 1]) {
                    Err(e) => Err(e),
                    Ok((s2, r)) => Ok((s2, rec.push(r))),
                },
            }
        }
    }

    /// One more unknown slot popped at the deep end and pushed back unchanged.
    pub open spec fn padded(self) -> ArityModel {
        ArityModel {
            pops: self.pops.push(Type::Unknown),
            pushes: seq![Resultant::Dependent(MultiIndex::unit(self.pops.len() as usize))]
                + self.pushes,
            captures: self.captures,
        }
    }

    /// Padded until it pops at least `n` slots.
    pub open spec fn padded_to(self, n: nat) -> ArityModel
        decreases n - self.pops.len(),
    {
        if self.pops.len() >= n {
            self
        } else {
            self.padded().padded_to(n)
        }
    }
}

/// The join, over the slots named by `m`, of what each stands for in `rec`.
pub open spec fn gathered(m: MultiIndex, rec: Seq<Resultant>) -> Resultant
    decreases m,
{
    match m.next {
        Some(n) => rec[m.el as int].join(gathered(*n, rec)),
        None => rec[m.el as int],
    }
}

/// The type that the effects before bind `name` to, when they always define it.
pub open spec fn bound_type(before: Seq<Effect>, name: Seq<char>) -> Option<Resultant> {
    match find(before, name) {
        Some(e) => match e.defines {
            Some((t, Certainty::Always)) => Some(t),
            _ => None,
        },
        None => None,
    }
}

/// A pushed type of the second effect, restated over the slots of the combined effect.
pub open spec fn restated(r: Resultant, rec: Seq<Resultant>, before: Seq<Effect>) -> Resultant {
    match r {
        Resultant::Normal(_) => r,
        Resultant::Dependent(m) => gathered(m, rec),
        Resultant::Recall(n) => match bound_type(before, n) {
            Some(t) => t,
            None => r,
        },
    }
}

/// An effect of the second block, restated over the slots of the combined effect.
pub open spec fn effect_restated(e: Effect, rec: Seq<Resultant>, before: Seq<Effect>) -> Effect {
    Effect {
        name: e.name,
        expects: e.expects,
        defines: match e.defines {
            Some((r, c)) => Some((restated(r, rec, before), c)),
            None => None,
        },
    }
}

/// The effect on one variable of a block followed by another.
pub open spec fn chained_one(first: Effect, second: Option<Effect>) -> Effect {
    match second {
        None => first,
        Some(s) => Effect {
            name: first.name,
            expects: first.expects || (s.expects && !(first.defines matches Some(
                (_, Certainty::Always),
            ))),
            defines: match s.defines {
                Some((t, Certainty::Always)) => Some((t, Certainty::Always)),
                Some((t, Certainty::Sometimes)) => match first.defines {
                    Some((ta, c)) => Some((ta.join(t), c)),
                    None => Some((t, Certainty::Sometimes)),
                },
                None => first.defines,
            },
        },
    }
}

/// The first `k` effects of `list` whose names `known` does not hold.
pub open spec fn fresh(list: Seq<Effect>, known: Seq<Effect>, k: nat) -> Seq<Effect>
    decreases k,
{
    if k == 0 {
        Seq::empty()
    } else {
        let before = fresh(list, known, (k - 1) as nat);
        if find(known, list[k - 1].name) is None {
            before.push(list[k - 1])
        } else {
            before
        }
    }
}

/// The capture effects of a block followed by another.
pub open spec fn chained(first: Seq<Effect>, second: Seq<Effect>) -> Seq<Effect> {
    first.map_values(|e: Effect| chained_one(e, find(second, e.name))) + fresh(
        second,
        first,
        second.len(),
    )
}

/// The effect of running `a` and then `b`.
pub open spec fn serial_of(a: ArityModel, b: ArityModel) -> Result<ArityModel, ArityCombineError> {
    match a.popped_all(b.pops, b.pops.len()) {
        Err(e) => Err(e),
        Ok((s, rec)) => Ok(
            ArityModel {
                pops: s.pops,
                pushes: s.pushes + b.pushes.map_values(
                    |r: Resultant| restated(r, rec, s.captures),
                ),
                captures: chained(
                    s.captures,
                    b.captures.map_values(
                        |e: Effect| effect_restated(e, rec, s.captures),
                    ),
                ),
            },
        ),
    }
}

/// A variable's effect when the block that has it may or may not run.
pub open spec fn weakened(e: Effect) -> Effect {
    Effect {
        name: e.name,
        expects: e.expects,
        defines: match e.defines {
            Some((t, _)) => Some((t, Certainty::Sometimes)),
            None => None,
        },
    }
}

/// The effect on one variable of running either of two blocks.
pub open spec fn either_one(left: Effect, right: Option<Effect>) -> Effect {
    match right {
        None => weakened(left),
        Some(r) => Effect {
            name: left.name,
            expects: left.expects || r.expects,
            defines: match (left.defines, r.defines) {
                (Some((tl, cl)), Some((tr, cr))) => Some(
                    (
                        tl.join(tr),
                        if cl == Certainty::Always && cr == Certainty::Always {
                            Certainty::Always
                        } else {
                            Certainty::Sometimes
                        },
                    ),
                ),
                (Some((t, _)), None) => Some((t, Certainty::Sometimes)),
                (None, Some((t, _))) => Some((t, Certainty::Sometimes)),
                (None, None) => None,
            },
        },
    }
}

/// An effect with its defined type read against the popped types.
pub open spec fn effect_resolved(e: Effect, pops: Seq<Type>) -> Effect {
    Effect {
        name: e.name,
        expects: e.expects,
        defines: match e.defines {
            Some((r, c)) => Some((resolved(r, pops), c)),
            None => None,
        },
    }
}

/// The capture effects of running either of two blocks.
pub open spec fn either(left: Seq<Effect>, right: Seq<Effect>) -> Seq<Effect> {
    left.map_values(|e: Effect| either_one(e, find(right, e.name))) + fresh(
        right,
        left,
        right.len(),
    ).map_values(|e: Effect| weakened(e))
}

/// The two lists of popped types can be met slot by slot.
pub open spec fn meets_all(a: Seq<Type>, b: Seq<Type>) -> bool {
    forall|i: int| 0 <= i < a.len() && i < b.len() ==> (#[trigger] meet(a[i], b[i])) is Some
}

/// The larger of two lengths.
pub open spec fn longer(a: nat, b: nat) -> nat {
    if a >= b {
        a
    } else {
        b
    }
}

/// The effect of running either `l` or `r`.
pub open spec fn parallel_of(l: ArityModel, r: ArityModel) -> Result<
    ArityModel,
    ArityCombineError,
> {
    let n = longer(l.pops.len(), r.pops.len());
    let lp = l.padded_to(n);
    let rp = r.padded_to(n);
    if lp.pushes.len() != rp.pushes.len() {
        Err(ArityCombineError::DifferingSizes)
    } else if !meets_all(lp.pops, rp.pops) {
        Err(ArityCombineError::IncompatibleTypes)
    } else {
        let pops = Seq::new(n, |i: int| meet(rp.pops[i], lp.pops[i])->0);
        Ok(
            ArityModel {
                pops,
                pushes: Seq::new(
                    lp.pushes.len(),
                    |i: int| resolved(lp.pushes[i], pops).join(resolved(rp.pushes[i], pops)),
                ),
                captures: either(
                    lp.captures.map_values(|e: Effect| effect_resolved(e, pops)),
                    rp.captures.map_values(|e: Effect| effect_resolved(e, pops)),
                ),
            },
        )
    }
}

} // verus!
