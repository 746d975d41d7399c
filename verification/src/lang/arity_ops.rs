//! The executable operations on stack effects, each proved against the model.
use vstd::prelude::*;
use crate::lang::arity::{
    all_unknown, compatible, concretized, effect_concretized, effect_of, effects, gathered,
    joined_types, lookup, overlaps, resolved, resultants, settled, Arity, ArityCombineError,
    ArityModel, Certainty, Effect, Resultant, ResultantType, VariableEffect,
};
use crate::lang::multi_index::{below_means_every_member, merged_is_the_union, MultiIndex};
use crate::lang::types::{join, Type};

verus! {

/// A bound on the members of a set holds for every larger bound too.
pub proof fn below_grows(m: MultiIndex, a: int, b: int)
    requires
        m.below(a),
        a <= b,
    ensures
        m.below(b),
    decreases m,
{
    match m.next {
        Some(n) => below_grows(*n, a, b),
        None => {},
    }
}

/// A well-formed pushed type stays well-formed when more slots are popped.
pub proof fn wf_grows(r: Resultant, a: int, b: int)
    requires
        r.wf(a),
        a <= b,
    ensures
        r.wf(b),
{
    match r {
        Resultant::Dependent(m) => below_grows(m, a, b),
        _ => {},
    }
}

/// The join of two well-formed pushed types is well-formed.
pub proof fn join_keeps_wf(x: Resultant, y: Resultant, n: int)
    requires
        x.wf(n),
        y.wf(n),
    ensures
        x.join(y).wf(n),
{
    match (x, y) {
        (Resultant::Dependent(a), Resultant::Dependent(b)) => {
            merged_is_the_union(a, b, 0);
            below_means_every_member(a, n);
            below_means_every_member(b, n);
            below_means_every_member(a.merged(b), n);
            assert forall|j: usize| #[trigger] a.merged(b).has(j) implies j < n by {
                merged_is_the_union(a, b, j);
            }
        },
        _ => {},
    }
}

/// What `gathered` yields is well-formed when every recorded type is.
pub proof fn gathered_keeps_wf(m: MultiIndex, rec: Seq<Resultant>, n: int)
    requires
        m.below(rec.len() as int),
        forall|i: int| 0 <= i < rec.len() ==> (#[trigger] rec[i]).wf(n),
    ensures
        gathered(m, rec).wf(n),
    decreases m,
{
    match m.next {
        Some(x) => {
            gathered_keeps_wf(*x, rec, n);
            join_keeps_wf(rec[m.el as int], gathered(*x, rec), n);
        },
        None => {},
    }
}

impl ResultantType {
    /// A copy.
    pub fn duplicate(&self) -> (r: ResultantType)
        ensures
            r@ == self@,
    {
        match self {
            ResultantType::Normal(t) => ResultantType::Normal(*t),
            ResultantType::Dependent(m) => ResultantType::Dependent(m.duplicate()),
            ResultantType::Recall(n) => ResultantType::Recall(n.clone()),
        }
    }

    /// Whether the slot depends on popped position `i`.
    pub fn references(&self, i: usize) -> (r: bool)
        ensures
            r == self@.references(i),
    {
        match self {
            ResultantType::Dependent(d) => d.contains(i),
            _ => false,
        }
    }

    /// The type of a slot that may come from either of two sources.
    pub fn union(&self, other: &ResultantType) -> (r: Result<ResultantType, ()>)
        ensures
            r is Ok,
            r->Ok_0@ == self@.join(other@),
    {
        Ok(
            match (self, other) {
                (ResultantType::Normal(a), ResultantType::Normal(b)) => ResultantType::Normal(
                    a.union(*b),
                ),
                (ResultantType::Dependent(_), ResultantType::Normal(n)) => ResultantType::Normal(
                    *n,
                ),
                (ResultantType::Normal(n), ResultantType::Dependent(_)) => ResultantType::Normal(
                    *n,
                ),
                (ResultantType::Dependent(a), ResultantType::Dependent(b)) => {
                    ResultantType::Dependent(a.union(b))
                },
                (ResultantType::Recall(a), ResultantType::Recall(b)) => {
                    if *a == *b {
                        ResultantType::Recall(a.clone())
                    } else {
                        ResultantType::Normal(Type::Unknown)
                    }
                },
                (ResultantType::Recall(_), ResultantType::Normal(_)) => ResultantType::Normal(
                    Type::Unknown,
                ),
                (ResultantType::Normal(_), ResultantType::Recall(_)) => ResultantType::Normal(
                    Type::Unknown,
                ),
                (ResultantType::Recall(_), ResultantType::Dependent(_)) => ResultantType::Normal(
                    Type::Unknown,
                ),
                (ResultantType::Dependent(_), ResultantType::Recall(_)) => ResultantType::Normal(
                    Type::Unknown,
                ),
            },
        )
    }
}

fn overlap(m: &MultiIndex, d: &MultiIndex) -> (r: bool)
    ensures
        r == overlaps(*m, *d),
    decreases m,
{
    if d.contains(m.el) {
        true
    } else {
        match &m.next {
            Some(n) => overlap(n, d),
            None => false,
        }
    }
}

fn every_unknown(m: &MultiIndex, pops: &Vec<Type>) -> (r: bool)
    requires
        m.below(pops.len() as int),
    ensures
        r == all_unknown(*m, pops@),
    decreases m,
{
    if pops[m.el] == Type::Unknown {
        match &m.next {
            Some(n) => every_unknown(n, pops),
            None => true,
        }
    } else {
        false
    }
}

fn join_named(m: &MultiIndex, pops: &Vec<Type>) -> (r: Type)
    requires
        m.below(pops.len() as int),
    ensures
        r == joined_types(*m, pops@),
    decreases m,
{
    match &m.next {
        Some(n) => pops[m.el].union(join_named(n, pops)),
        None => pops[m.el],
    }
}

fn fits(m: &MultiIndex, pops: &Vec<Type>, term: Type) -> (r: bool)
    requires
        m.below(pops.len() as int),
    ensures
        r == compatible(*m, pops@, term),
    decreases m,
{
    if term.inter(pops[m.el]).is_some() {
        match &m.next {
            Some(n) => fits(n, pops, term),
            None => true,
        }
    } else {
        false
    }
}

fn settle(pops: &mut Vec<Type>, m: &MultiIndex, term: Type)
    ensures
        final(pops)@ == settled(old(pops)@, *m, term),
{
    let mut j: usize = 0;
    while j < pops.len()
        invariant
            j <= pops.len(),
            pops.len() == old(pops).len(),
            forall|k: int| 0 <= k < j ==> pops@[k] == settled(old(pops)@, *m, term)[k],
            forall|k: int| j <= k < pops.len() ==> pops@[k] == old(pops)@[k],
        decreases pops.len() - j,
    {
        if m.contains(j) {
            pops.set(j, term);
        }
        j += 1;
    }
    assert(pops@ =~= settled(old(pops)@, *m, term));
}

/// Reads a pushed type against the popped types.
pub fn resolve(r: ResultantType, pops: &Vec<Type>) -> (out: ResultantType)
    requires
        r@.wf(pops.len() as int),
    ensures
        out@ == resolved(r@, pops@),
        out@.wf(pops.len() as int),
{
    match r {
        ResultantType::Dependent(m) => {
            if every_unknown(&m, pops) {
                ResultantType::Dependent(m)
            } else {
                ResultantType::Normal(join_named(&m, pops))
            }
        },
        other => other,
    }
}

/// The join, over the slots named by `m`, of what each stands for in `rec`.
pub fn gather(m: &MultiIndex, rec: &Vec<ResultantType>) -> (r: ResultantType)
    requires
        m.below(rec.len() as int),
    ensures
        r@ == gathered(*m, resultants(rec@)),
    decreases m,
{
    match &m.next {
        Some(n) => {
            let rest = gather(n, rec);
            match rec[m.el].union(&rest) {
                Ok(v) => v,
                Err(_) => rest,
            }
        },
        None => rec[m.el].duplicate(),
    }
}

fn concretize_pushes(pushes: &mut Vec<ResultantType>, m: &MultiIndex, term: Type)
    ensures
        resultants(final(pushes)@) == resultants(old(pushes)@).map_values(
            |r: Resultant| concretized(r, *m, term),
        ),
{
    let mut i: usize = 0;
    while i < pushes.len()
        invariant
            i <= pushes.len(),
            pushes.len() == old(pushes).len(),
            forall|k: int| 0 <= k < i ==> pushes@[k]@ == concretized(old(pushes)@[k]@, *m, term),
            forall|k: int| i <= k < pushes.len() ==> pushes@[k]@ == old(pushes)@[k]@,
        decreases pushes.len() - i,
    {
        let hit = match &pushes[i] {
            ResultantType::Dependent(d) => overlap(m, d),
            _ => false,
        };
        if hit {
            pushes.set(i, ResultantType::Normal(term));
        }
        i += 1;
    }
    assert(resultants(pushes@) =~= resultants(old(pushes)@).map_values(
        |r: Resultant| concretized(r, *m, term),
    ));
}

fn concretize_captures(list: &mut Vec<(String, VariableEffect)>, m: &MultiIndex, term: Type)
    ensures
        effects(final(list)@) == effects(old(list)@).map_values(
            |e: Effect| effect_concretized(e, *m, term),
        ),
{
    let mut i: usize = 0;
    while i < list.len()
        invariant
            i <= list.len(),
            list.len() == old(list).len(),
            forall|k: int|
                0 <= k < i ==> effect_of(list@[k]) == effect_concretized(
                    effect_of(old(list)@[k]),
                    *m,
                    term,
                ),
            forall|k: int| i <= k < list.len() ==> effect_of(list@[k]) == effect_of(old(list)@[k]),
        decreases list.len() - i,
    {
        let hit = match &list[i].1.defines {
            Some((ResultantType::Dependent(d), _)) => overlap(m, d),
            _ => false,
        };
        if hit {
            let name = list[i].0.clone();
            let expects = list[i].1.expects;
            let certainty = match &list[i].1.defines {
                Some((_, c)) => *c,
                None => Certainty::Always,
            };
            list.set(
                i,
                (
                    name,
                    VariableEffect {
                        expects,
                        defines: Some((ResultantType::Normal(term), certainty)),
                    },
                ),
            );
        }
        i += 1;
    }
    assert(effects(list@) =~= effects(old(list)@).map_values(
        |e: Effect| effect_concretized(e, *m, term),
    ));
}

/// A copy of a named effect.
pub fn copy_effect(c: &(String, VariableEffect)) -> (r: (String, VariableEffect))
    ensures
        effect_of(r) == effect_of(*c),
{
    let defines = match &c.1.defines {
        Some((t, k)) => Some((t.duplicate(), *k)),
        None => None,
    };
    (c.0.clone(), VariableEffect { expects: c.1.expects, defines })
}

/// Where the first effect named `name` stands in `list`.
pub fn position(list: &Vec<(String, VariableEffect)>, name: &String) -> (r: Option<usize>)
    ensures
        match r {
            Some(i) => lookup(effects(list@), name@, 0) == Some(i as int) && i < list.len(),
            None => lookup(effects(list@), name@, 0) is None,
        },
{
    let mut i: usize = 0;
    while i < list.len()
        invariant
            i <= list.len(),
            lookup(effects(list@), name@, 0) == lookup(effects(list@), name@, i as int),
        decreases list.len() - i,
    {
        if list[i].0 == *name {
            return Some(i);
        }
        i += 1;
    }
    None
}

impl Arity {
    /// The effect of doing nothing.
    pub fn noop() -> (r: Arity)
        ensures
            r@ == ArityModel::noop(),
            r@.wf(),
    {
        let r = Arity { pops: Vec::new(), pushes: Vec::new(), captures: Vec::new() };
        assert(r@.pops =~= Seq::empty());
        assert(r@.pushes =~= Seq::empty());
        assert(r@.captures =~= Seq::empty());
        r
    }

    /// A copy.
    pub fn duplicate(&self) -> (r: Arity)
        ensures
            r@ == self@,
    {
        let mut pops: Vec<Type> = Vec::new();
        let mut i: usize = 0;
        while i < self.pops.len()
            invariant
                i <= self.pops.len(),
                pops@ == self.pops@.take(i as int),
            decreases self.pops.len() - i,
        {
            pops.push(self.pops[i]);
            i += 1;
            assert(pops@ =~= self.pops@.take(i as int));
        }
        assert(pops@ =~= self.pops@);
        let mut pushes: Vec<ResultantType> = Vec::new();
        let mut i: usize = 0;
        while i < self.pushes.len()
            invariant
                i <= self.pushes.len(),
                pushes.len() == i,
                forall|k: int| 0 <= k < i ==> pushes@[k]@ == self.pushes@[k]@,
            decreases self.pushes.len() - i,
        {
            let c = self.pushes[i].duplicate();
            pushes.push(c);
            i += 1;
        }
        assert(resultants(pushes@) =~= resultants(self.pushes@));
        let mut captures: Vec<(String, VariableEffect)> = Vec::new();
        let mut i: usize = 0;
        while i < self.captures.len()
            invariant
                i <= self.captures.len(),
                captures.len() == i,
                forall|k: int| 0 <= k < i ==> effect_of(captures@[k]) == effect_of(self.captures@[k]),
            decreases self.captures.len() - i,
        {
            let c = copy_effect(&self.captures[i]);
            captures.push(c);
            i += 1;
        }
        assert(effects(captures@) =~= effects(self.captures@));
        Arity { pops, pushes, captures }
    }

    /// How many slots the effect pops and how many it pushes.
    pub fn size(&self) -> (r: (usize, usize))
        ensures
            r.0 == self@.pops.len(),
            r.1 == self@.pushes.len(),
    {
        (self.pops.len(), self.pushes.len())
    }

    /// Takes one slot of type `term`: from what the effect pushes, or else as one
    /// more thing it pops. Gives the type the taken slot stands for. When the
    /// types cannot be reconciled the effect is left as it was.
    pub fn pop(&mut self, term: Type) -> (res: Result<ResultantType, ArityCombineError>)
        requires
            old(self)@.wf(),
        ensures
            final(self)@.wf(),
            match old(self)@.popped(term) {
                Ok((s, r)) => res is Ok && res->Ok_0@ == r && final(self)@ == s && r.wf(
                    s.pops.len() as int,
                ),
                Err(e) => res is Err && res->Err_0 == e && final(self)@ == old(self)@,
            },
            final(self)@.pops.len() >= old(self)@.pops.len(),
    {
        let n = self.pushes.len();
        if n == 0 {
            let ghost before = self@;
            self.pops.push(term);
            let idx = self.pops.len() - 1;
            proof {
                assert forall|i: int| 0 <= i < self@.captures.len() implies match (
                #[trigger] self@.captures[i]).defines {
                    Some((r, _)) => r.wf(self@.pops.len() as int),
                    None => true,
                } by {
                    assert(self@.captures[i] == before.captures[i]);
                    match before.captures[i].defines {
                        Some((r, _)) => wf_grows(
                            r,
                            before.pops.len() as int,
                            self@.pops.len() as int,
                        ),
                        None => {},
                    }
                }
            }
            return Ok(ResultantType::Dependent(MultiIndex::single(idx)));
        }
        let top = self.pushes[n - 1].duplicate();
        let ghost before = self@;
        assert(before.pushes.last() == top@);
        assert(top@.wf(self.pops.len() as int));
        match top {
            ResultantType::Normal(t) => {
                if t.assignable_to(&term) || term.assignable_to(&t) {
                    self.pushes.pop();
                    assert(resultants(self.pushes@) =~= before.pushes.drop_last());
                    Ok(ResultantType::Normal(t))
                } else {
                    Err(ArityCombineError::IncompatibleTypes)
                }
            },
            ResultantType::Dependent(m) => {
                if term == Type::Unknown {
                    self.pushes.pop();
                    assert(resultants(self.pushes@) =~= before.pushes.drop_last());
                    Ok(ResultantType::Dependent(m))
                } else if fits(&m, &self.pops, term) {
                    self.pushes.pop();
                    assert(resultants(self.pushes@) =~= before.pushes.drop_last());
                    settle(&mut self.pops, &m, term);
                    concretize_pushes(&mut self.pushes, &m, term);
                    concretize_captures(&mut self.captures, &m, term);
                    proof {
                        let rest = ArityModel {
                            pops: before.pops,
                            pushes: before.pushes.drop_last(),
                            captures: before.captures,
                        };
                        assert(self@ == rest.concretized(m, term));
                        assert forall|i: int| 0 <= i < self@.pushes.len() implies (
                        #[trigger] self@.pushes[i]).wf(self@.pops.len() as int) by {
                            assert(rest.pushes[i] == before.pushes[i]);
                        }
                        assert forall|i: int| 0 <= i < self@.captures.len() implies match (
                        #[trigger] self@.captures[i]).defines {
                            Some((r, _)) => r.wf(self@.pops.len() as int),
                            None => true,
                        } by {
                            assert(self@.captures[i] == effect_concretized(
                                before.captures[i],
                                m,
                                term,
                            ));
                        }
                    }
                    Ok(ResultantType::Normal(term))
                } else {
                    Err(ArityCombineError::IncompatibleTypes)
                }
            },
            ResultantType::Recall(name) => {
                self.pushes.pop();
                assert(resultants(self.pushes@) =~= before.pushes.drop_last());
                if term == Type::Unknown {
                    Ok(ResultantType::Recall(name))
                } else {
                    Ok(ResultantType::Normal(term))
                }
            },
        }
    }

    /// Adds a pushed slot of a known type on top.
    pub fn push(&mut self, term: Type)
        ensures
            final(self)@ == (ArityModel {
                pops: old(self)@.pops,
                pushes: old(self)@.pushes.push(Resultant::Normal(term)),
                captures: old(self)@.captures,
            }),
            old(self)@.wf() ==> final(self)@.wf(),
    {
        self.pushes.push(ResultantType::Normal(term));
        assert(resultants(self.pushes@) =~= old(self)@.pushes.push(Resultant::Normal(term)));
    }

    /// Adds a pushed slot on top.
    pub fn push_resultant(&mut self, r: ResultantType)
        ensures
            final(self)@ == (ArityModel {
                pops: old(self)@.pops,
                pushes: old(self)@.pushes.push(r@),
                captures: old(self)@.captures,
            }),
            old(self)@.wf() && r@.wf(old(self)@.pops.len() as int) ==> final(self)@.wf(),
    {
        let ghost v = r@;
        self.pushes.push(r);
        assert(resultants(self.pushes@) =~= old(self)@.pushes.push(v));
    }
}

impl MultiIndex {
    /// Whether the two sets are the same list.
    pub fn same(&self, other: &MultiIndex) -> (r: bool)
        ensures
            r == (*self == *other),
        decreases self,
    {
        if self.el != other.el {
            return false;
        }
        match (&self.next, &other.next) {
            (Some(a), Some(b)) => a.same(b),
            (None, None) => true,
            _ => false,
        }
    }
}

impl ResultantType {
    /// Whether the two pushed types have the same value.
    pub fn same(&self, other: &ResultantType) -> (r: bool)
        ensures
            r == (self@ == other@),
    {
        match (self, other) {
            (ResultantType::Normal(a), ResultantType::Normal(b)) => *a == *b,
            (ResultantType::Dependent(a), ResultantType::Dependent(b)) => a.same(b),
            (ResultantType::Recall(a), ResultantType::Recall(b)) => *a == *b,
            _ => false,
        }
    }
}

fn same_effect(a: &(String, VariableEffect), b: &(String, VariableEffect)) -> (r: bool)
    ensures
        r == (effect_of(*a) == effect_of(*b)),
{
    if !(a.0 == b.0) || a.1.expects != b.1.expects {
        return false;
    }
    match (&a.1.defines, &b.1.defines) {
        (Some((ta, ca)), Some((tb, cb))) => ta.same(tb) && *ca == *cb,
        (None, None) => true,
        _ => false,
    }
}

impl Arity {
    /// Whether the two effects have the same value.
    pub fn same(&self, other: &Arity) -> (r: bool)
        ensures
            r == (self@ == other@),
    {
        if self.pops.len() != other.pops.len() {
            assert(self@.pops.len() != other@.pops.len());
            return false;
        }
        if self.pushes.len() != other.pushes.len() {
            assert(self@.pushes.len() != other@.pushes.len());
            return false;
        }
        if self.captures.len() != other.captures.len() {
            assert(self@.captures.len() != other@.captures.len());
            return false;
        }
        let mut i: usize = 0;
        while i < self.pops.len()
            invariant
                i <= self.pops.len(),
                self.pops.len() == other.pops.len(),
                forall|k: int| 0 <= k < i ==> self.pops@[k] == other.pops@[k],
            decreases self.pops.len() - i,
        {
            if self.pops[i] != other.pops[i] {
                assert(self@.pops[i as int] != other@.pops[i as int]);
                return false;
            }
            i += 1;
        }
        assert(self@.pops =~= other@.pops);
        let mut i: usize = 0;
        while i < self.pushes.len()
            invariant
                i <= self.pushes.len(),
                self.pushes.len() == other.pushes.len(),
                forall|k: int| 0 <= k < i ==> self.pushes@[k]@ == other.pushes@[k]@,
            decreases self.pushes.len() - i,
        {
            if !self.pushes[i].same(&other.pushes[i]) {
                assert(self@.pushes[i as int] != other@.pushes[i as int]);
                return false;
            }
            i += 1;
        }
        assert(self@.pushes =~= other@.pushes);
        let mut i: usize = 0;
        while i < self.captures.len()
            invariant
                i <= self.captures.len(),
                self.captures.len() == other.captures.len(),
                forall|k: int|
                    0 <= k < i ==> effect_of(self.captures@[k]) == effect_of(other.captures@[k]),
            decreases self.captures.len() - i,
        {
            if !same_effect(&self.captures[i], &other.captures[i]) {
                assert(self@.captures[i as int] != other@.captures[i as int]);
                return false;
            }
            i += 1;
        }
        assert(self@.captures =~= other@.captures);
        true
    }
}

} // verus!
