//! Building stack effects and combining them in sequence and as alternatives.
use vstd::prelude::*;
use crate::lang::arity::{
    chained, chained_one, effect_of, effect_resolved, effect_restated, effects, either, either_one,
    find, fresh, longer, lookup, parallel_of, resolved, resultants, serial_of, restated, weakened,
    Arity, ArityCombineError, ArityModel, Certainty, Effect, Resultant, ResultantType,
    VariableEffect,
};
use crate::lang::arity_ops::{
    copy_effect, gather, gathered_keeps_wf, join_keeps_wf, position, resolve, wf_grows,
};
use crate::lang::multi_index::MultiIndex;
use crate::lang::types::{meet, Type};

verus! {

/// Every defined type in the list is well-formed over `n` popped slots.
pub open spec fn effects_wf(list: Seq<Effect>, n: int) -> bool {
    forall|i: int|
        0 <= i < list.len() ==> match (#[trigger] list[i]).defines {
            Some((r, _)) => r.wf(n),
            None => true,
        }
}

/// Once taking slots has failed, taking more of them fails the same way.
pub proof fn popped_all_error_sticks(a: ArityModel, terms: Seq<Type>, k: nat, n: nat)
    requires
        a.popped_all(terms, k) is Err,
        k <= n,
    ensures
        a.popped_all(terms, n) is Err,
        a.popped_all(terms, n)->Err_0 == a.popped_all(terms, k)->Err_0,
    decreases n,
{
    if n > k {
        popped_all_error_sticks(a, terms, k, (n - 1) as nat);
    }
}

fn chain_one(first: &(String, VariableEffect), second: Option<&(String, VariableEffect)>) -> (r: (
    String,
    VariableEffect,
))
    ensures
        effect_of(r) == chained_one(
            effect_of(*first),
            match second {
                Some(s) => Some(effect_of(*s)),
                None => None,
            },
        ),
{
    match second {
        None => copy_effect(first),
        Some(s) => {
            let always = match &first.1.defines {
                Some((_, Certainty::Always)) => true,
                _ => false,
            };
            let expects = first.1.expects || (s.1.expects && !always);
            let defines = match &s.1.defines {
                Some((t, Certainty::Always)) => Some((t.duplicate(), Certainty::Always)),
                Some((t, Certainty::Sometimes)) => match &first.1.defines {
                    Some((ta, c)) => {
                        let joined = match ta.union(t) {
                            Ok(v) => v,
                            Err(_) => t.duplicate(),
                        };
                        Some((joined, *c))
                    },
                    None => Some((t.duplicate(), Certainty::Sometimes)),
                },
                None => match &first.1.defines {
                    Some((ta, c)) => Some((ta.duplicate(), *c)),
                    None => None,
                },
            };
            (first.0.clone(), VariableEffect { expects, defines })
        },
    }
}

fn weaken(e: &(String, VariableEffect)) -> (r: (String, VariableEffect))
    ensures
        effect_of(r) == weakened(effect_of(*e)),
{
    let defines = match &e.1.defines {
        Some((t, _)) => Some((t.duplicate(), Certainty::Sometimes)),
        None => None,
    };
    (e.0.clone(), VariableEffect { expects: e.1.expects, defines })
}

fn either_of(left: &(String, VariableEffect), right: Option<&(String, VariableEffect)>) -> (r: (
    String,
    VariableEffect,
))
    ensures
        effect_of(r) == either_one(
            effect_of(*left),
            match right {
                Some(s) => Some(effect_of(*s)),
                None => None,
            },
        ),
{
    match right {
        None => weaken(left),
        Some(s) => {
            let expects = left.1.expects || s.1.expects;
            let defines = match (&left.1.defines, &s.1.defines) {
                (Some((tl, cl)), Some((tr, cr))) => {
                    let joined = match tl.union(tr) {
                        Ok(v) => v,
                        Err(_) => tl.duplicate(),
                    };
                    let certainty = if *cl == Certainty::Always && *cr == Certainty::Always {
                        Certainty::Always
                    } else {
                        Certainty::Sometimes
                    };
                    Some((joined, certainty))
                },
                (Some((t, _)), None) => Some((t.duplicate(), Certainty::Sometimes)),
                (None, Some((t, _))) => Some((t.duplicate(), Certainty::Sometimes)),
                (None, None) => None,
            };
            (left.0.clone(), VariableEffect { expects, defines })
        },
    }
}

/// An effect found by name is one of the list's effects.
pub proof fn found_is_a_member(list: Seq<Effect>, name: Seq<char>, from: int)
    requires
        0 <= from,
    ensures
        match lookup(list, name, from) {
            Some(i) => from <= i < list.len() && list[i].name == name,
            None => forall|j: int| from <= j < list.len() ==> (#[trigger] list[j]).name != name,
        },
    decreases list.len() - from,
{
    if from < list.len() && list[from].name != name {
        found_is_a_member(list, name, from + 1);
    }
}

fn chain(
    first: &Vec<(String, VariableEffect)>,
    second: &Vec<(String, VariableEffect)>,
    Ghost(n): Ghost<int>,
) -> (r: Vec<(String, VariableEffect)>)
    requires
        effects_wf(effects(first@), n),
        effects_wf(effects(second@), n),
    ensures
        effects(r@) == chained(effects(first@), effects(second@)),
        effects_wf(effects(r@), n),
{
    let ghost fa = effects(first@);
    let ghost fb = effects(second@);
    let mut out: Vec<(String, VariableEffect)> = Vec::new();
    let mut i: usize = 0;
    while i < first.len()
        invariant
            i <= first.len(),
            out.len() == i,
            fa == effects(first@),
            fb == effects(second@),
            effects_wf(fa, n),
            effects_wf(fb, n),
            forall|k: int|
                0 <= k < i ==> effect_of(#[trigger] out@[k]) == chained_one(
                    fa[k],
                    find(fb, fa[k].name),
                ),
            effects_wf(effects(out@), n),
        decreases first.len() - i,
    {
        let at = position(second, &first[i].0);
        let ghost before = effects(out@);
        let e = match at {
            Some(j) => chain_one(&first[i], Some(&second[j])),
            None => chain_one(&first[i], None),
        };
        proof {
            assert(fa[i as int] == effect_of(first@[i as int]));
            match at {
                Some(j) => {
                    assert(fb[j as int] == effect_of(second@[j as int]));
                    match (fa[i as int].defines, fb[j as int].defines) {
                        (Some((ta, _)), Some((t, _))) => join_keeps_wf(ta, t, n),
                        _ => {},
                    }
                },
                None => {},
            }
        }
        out.push(e);
        proof {
            assert forall|k: int| 0 <= k < effects(out@).len() implies match (#[trigger] effects(
                out@,
            )[k]).defines {
                Some((r, _)) => r.wf(n),
                None => true,
            } by {
                if k < i {
                    assert(effects(out@)[k] == before[k]);
                }
            }
        }
        i += 1;
    }
    let ghost head = effects(out@);
    assert(head =~= fa.map_values(|e: Effect| chained_one(e, find(fb, e.name))));
    let mut k: usize = 0;
    while k < second.len()
        invariant
            k <= second.len(),
            fa == effects(first@),
            fb == effects(second@),
            effects_wf(fb, n),
            effects(out@) == head + fresh(fb, fa, k as nat),
            effects_wf(effects(out@), n),
        decreases second.len() - k,
    {
        let at = position(first, &second[k].0);
        let ghost before = effects(out@);
        assert(fb[k as int] == effect_of(second@[k as int]));
        assert(fresh(fb, fa, (k + 1) as nat) == if find(fa, fb[k as int].name) is None {
            fresh(fb, fa, k as nat).push(fb[k as int])
        } else {
            fresh(fb, fa, k as nat)
        });
        if at.is_none() {
            let e = copy_effect(&second[k]);
            out.push(e);
            assert(effects(out@) =~= before.push(fb[k as int]));
            assert(find(fa, fb[k as int].name) is None);
            assert(effects(out@) =~= head + fresh(fb, fa, (k + 1) as nat));
            proof {
                assert forall|x: int| 0 <= x < effects(out@).len() implies match (
                #[trigger] effects(out@)[x]).defines {
                    Some((r, _)) => r.wf(n),
                    None => true,
                } by {
                    if x < before.len() {
                        assert(effects(out@)[x] == before[x]);
                    }
                }
            }
        }
        k += 1;
    }
    out
}

fn alternatives(
    left: &Vec<(String, VariableEffect)>,
    right: &Vec<(String, VariableEffect)>,
    Ghost(n): Ghost<int>,
) -> (r: Vec<(String, VariableEffect)>)
    requires
        effects_wf(effects(left@), n),
        effects_wf(effects(right@), n),
    ensures
        effects(r@) == either(effects(left@), effects(right@)),
        effects_wf(effects(r@), n),
{
    let ghost fa = effects(left@);
    let ghost fb = effects(right@);
    let mut out: Vec<(String, VariableEffect)> = Vec::new();
    let mut i: usize = 0;
    while i < left.len()
        invariant
            i <= left.len(),
            out.len() == i,
            fa == effects(left@),
            fb == effects(right@),
            effects_wf(fa, n),
            effects_wf(fb, n),
            forall|k: int|
                0 <= k < i ==> effect_of(#[trigger] out@[k]) == either_one(
                    fa[k],
                    find(fb, fa[k].name),
                ),
            effects_wf(effects(out@), n),
        decreases left.len() - i,
    {
        let at = position(right, &left[i].0);
        let ghost before = effects(out@);
        let e = match at {
            Some(j) => either_of(&left[i], Some(&right[j])),
            None => either_of(&left[i], None),
        };
        proof {
            assert(fa[i as int] == effect_of(left@[i as int]));
            match at {
                Some(j) => {
                    assert(fb[j as int] == effect_of(right@[j as int]));
                    match (fa[i as int].defines, fb[j as int].defines) {
                        (Some((ta, _)), Some((t, _))) => join_keeps_wf(ta, t, n),
                        _ => {},
                    }
                },
                None => {},
            }
        }
        out.push(e);
        proof {
            assert forall|k: int| 0 <= k < effects(out@).len() implies match (#[trigger] effects(
                out@,
            )[k]).defines {
                Some((r, _)) => r.wf(n),
                None => true,
            } by {
                if k < i {
                    assert(effects(out@)[k] == before[k]);
                }
            }
        }
        i += 1;
    }
    let ghost head = effects(out@);
    assert(head =~= fa.map_values(|e: Effect| either_one(e, find(fb, e.name))));
    let mut k: usize = 0;
    while k < right.len()
        invariant
            k <= right.len(),
            fa == effects(left@),
            fb == effects(right@),
            effects_wf(fb, n),
            effects(out@) == head + fresh(fb, fa, k as nat).map_values(|e: Effect| weakened(e)),
            effects_wf(effects(out@), n),
        decreases right.len() - k,
    {
        let at = position(left, &right[k].0);
        let ghost before = effects(out@);
        assert(fb[k as int] == effect_of(right@[k as int]));
        assert(fresh(fb, fa, (k + 1) as nat) == if find(fa, fb[k as int].name) is None {
            fresh(fb, fa, k as nat).push(fb[k as int])
        } else {
            fresh(fb, fa, k as nat)
        });
        if at.is_none() {
            let e = weaken(&right[k]);
            out.push(e);
            assert(effects(out@) =~= before.push(weakened(fb[k as int])));
            assert(find(fa, fb[k as int].name) is None);
            assert(effects(out@) =~= head + fresh(fb, fa, (k + 1) as nat).map_values(
                |e: Effect| weakened(e),
            ));
            proof {
                assert forall|x: int| 0 <= x < effects(out@).len() implies match (
                #[trigger] effects(out@)[x]).defines {
                    Some((r, _)) => r.wf(n),
                    None => true,
                } by {
                    if x < before.len() {
                        assert(effects(out@)[x] == before[x]);
                    }
                }
            }
        }
        k += 1;
    }
    out
}

fn restate(
    r: &ResultantType,
    rec: &Vec<ResultantType>,
    before: &Vec<(String, VariableEffect)>,
    Ghost(slots): Ghost<int>,
) -> (out: ResultantType)
    requires
        r@.wf(rec.len() as int),
        forall|i: int| 0 <= i < rec.len() ==> (#[trigger] resultants(rec@)[i]).wf(slots),
        effects_wf(effects(before@), slots),
    ensures
        out@ == restated(r@, resultants(rec@), effects(before@)),
        out@.wf(slots),
{
    match r {
        ResultantType::Normal(t) => ResultantType::Normal(*t),
        ResultantType::Dependent(m) => {
            proof {
                gathered_keeps_wf(*m, resultants(rec@), slots);
            }
            gather(m, rec)
        },
        ResultantType::Recall(name) => {
            match position(before, name) {
                Some(i) => {
                    assert(effects(before@)[i as int] == effect_of(before@[i as int]));
                    match &before[i].1.defines {
                        Some((t, Certainty::Always)) => t.duplicate(),
                        _ => ResultantType::Recall(name.clone()),
                    }
                },
                None => ResultantType::Recall(name.clone()),
            }
        },
    }
}

impl Arity {
    /// The effect of running `first` and then `second`, or why the two cannot follow
    /// each other.
    pub fn serial(first: &Arity, second: &Arity) -> (res: Result<Arity, ArityCombineError>)
        requires
            first@.wf(),
            second@.wf(),
        ensures
            match serial_of(first@, second@) {
                Ok(m) => res is Ok && res->Ok_0@ == m && m.wf(),
                Err(e) => res is Err && res->Err_0 == e,
            },
    {
        let mut acc = first.duplicate();
        let mut rec: Vec<ResultantType> = Vec::new();
        let mut k: usize = 0;
        assert(resultants(rec@) =~= Seq::empty());
        while k < second.pops.len()
            invariant
                k <= second.pops.len(),
                acc@.wf(),
                rec.len() == k,
                first@.popped_all(second.pops@, k as nat) == Ok::<
                    (ArityModel, Seq<Resultant>),
                    ArityCombineError,
                >((acc@, resultants(rec@))),
                forall|i: int|
                    0 <= i < rec.len() ==> (#[trigger] resultants(rec@)[i]).wf(
                        acc@.pops.len() as int,
                    ),
            decreases second.pops.len() - k,
        {
            let ghost before = acc@;
            let ghost recorded = resultants(rec@);
            match acc.pop(second.pops[k]) {
                Err(e) => {
                    proof {
                        assert(first@.popped_all(second.pops@, (k + 1) as nat) is Err);
                        popped_all_error_sticks(
                            first@,
                            second.pops@,
                            (k + 1) as nat,
                            second.pops@.len(),
                        );
                    }
                    return Err(e);
                },
                Ok(r) => {
                    rec.push(r);
                    proof {
                        assert(resultants(rec@) =~= recorded.push(r@));
                        assert forall|i: int| 0 <= i < rec.len() implies (#[trigger] resultants(
                            rec@,
                        )[i]).wf(acc@.pops.len() as int) by {
                            if i < k {
                                assert(resultants(rec@)[i] == recorded[i]);
                                wf_grows(
                                    recorded[i],
                                    before.pops.len() as int,
                                    acc@.pops.len() as int,
                                );
                            }
                        }
                    }
                },
            }
            k += 1;
        }
        let ghost s = acc@;
        let ghost recorded = resultants(rec@);
        let ghost n = s.pops.len() as int;
        let mut i: usize = 0;
        let mut moved: Vec<ResultantType> = Vec::new();
        while i < second.pushes.len()
            invariant
                i <= second.pushes.len(),
                moved.len() == i,
                second@.wf(),
                rec.len() == second.pops.len(),
                acc@ == s,
                s.wf(),
                n == s.pops.len(),
                recorded == resultants(rec@),
                forall|j: int| 0 <= j < rec.len() ==> (#[trigger] resultants(rec@)[j]).wf(n),
                forall|j: int|
                    0 <= j < i ==> (#[trigger] moved@[j])@ == restated(
                        second@.pushes[j],
                        recorded,
                        s.captures,
                    ) && moved@[j]@.wf(n),
            decreases second.pushes.len() - i,
        {
            assert(second@.pushes[i as int] == second.pushes@[i as int]@);
            assert(second@.pushes[i as int].wf(second@.pops.len() as int));
            let t = restate(&second.pushes[i], &rec, &acc.captures, Ghost(n));
            moved.push(t);
            i += 1;
        }
        let mut caps: Vec<(String, VariableEffect)> = Vec::new();
        let mut i: usize = 0;
        while i < second.captures.len()
            invariant
                i <= second.captures.len(),
                caps.len() == i,
                second@.wf(),
                rec.len() == second.pops.len(),
                acc@ == s,
                s.wf(),
                n == s.pops.len(),
                recorded == resultants(rec@),
                forall|j: int| 0 <= j < rec.len() ==> (#[trigger] resultants(rec@)[j]).wf(n),
                forall|j: int|
                    0 <= j < i ==> effect_of(#[trigger] caps@[j]) == effect_restated(
                        second@.captures[j],
                        recorded,
                        s.captures,
                    ),
                effects_wf(effects(caps@), n),
            decreases second.captures.len() - i,
        {
            let c = &second.captures[i];
            assert(second@.captures[i as int] == effect_of(second.captures@[i as int]));
            let ghost before = effects(caps@);
            let defines = match &c.1.defines {
                Some((t, certainty)) => {
                    assert(t@.wf(second@.pops.len() as int));
                    Some((restate(t, &rec, &acc.captures, Ghost(n)), *certainty))
                },
                None => None,
            };
            caps.push((c.0.clone(), VariableEffect { expects: c.1.expects, defines }));
            proof {
                assert forall|x: int| 0 <= x < effects(caps@).len() implies match (
                #[trigger] effects(caps@)[x]).defines {
                    Some((r, _)) => r.wf(n),
                    None => true,
                } by {
                    if x < i {
                        assert(effects(caps@)[x] == before[x]);
                    }
                }
            }
            i += 1;
        }
        assert(effects(caps@) =~= second@.captures.map_values(
            |e: Effect| effect_restated(e, recorded, s.captures),
        ));
        let captures = chain(&acc.captures, &caps, Ghost(n));
        let Arity { pops, pushes: mut pushes, captures: _ } = acc;
        let ghost kept = resultants(pushes@);
        let mut i: usize = 0;
        let mut moved = moved;
        let ghost tail = resultants(moved@);
        assert(tail =~= second@.pushes.map_values(
            |r: Resultant| restated(r, recorded, s.captures),
        ));
        pushes.append(&mut moved);
        assert(resultants(pushes@) =~= kept + tail);
        let out = Arity { pops, pushes, captures };
        proof {
            assert forall|j: int| 0 <= j < out@.pushes.len() implies (#[trigger] out@.pushes[j]).wf(
                n,
            ) by {
                if j < kept.len() {
                    assert(out@.pushes[j] == s.pushes[j]);
                } else {
                    assert(out@.pushes[j] == tail[j - kept.len()]);
                }
            }
        }
        Ok(out)
    }

    /// One more unknown slot popped at the deep end and pushed back unchanged.
    pub fn extend_pops(&mut self)
        ensures
            final(self)@ == old(self)@.padded(),
            old(self)@.wf() ==> final(self)@.wf(),
    {
        let ghost before = self@;
        self.pops.push(Type::Unknown);
        let idx = self.pops.len() - 1;
        self.pushes.insert(0, ResultantType::Dependent(MultiIndex::single(idx)));
        assert(resultants(self.pushes@) =~= seq![
            Resultant::Dependent(MultiIndex::unit(before.pops.len() as usize)),
        ] + before.pushes);
        proof {
            if before.wf() {
                assert forall|j: int| 0 <= j < self@.pushes.len() implies (#[trigger] self@.pushes[j]).wf(
                    self@.pops.len() as int,
                ) by {
                    if j > 0 {
                        assert(self@.pushes[j] == before.pushes[j - 1]);
                        wf_grows(before.pushes[j - 1], before.pops.len() as int, self@.pops.len() as int);
                    }
                }
                assert forall|j: int| 0 <= j < self@.captures.len() implies match (
                #[trigger] self@.captures[j]).defines {
                    Some((r, _)) => r.wf(self@.pops.len() as int),
                    None => true,
                } by {
                    assert(self@.captures[j] == before.captures[j]);
                    match before.captures[j].defines {
                        Some((r, _)) => wf_grows(r, before.pops.len() as int, self@.pops.len() as int),
                        None => {},
                    }
                }
            }
        }
    }

    /// The effect of running either `raw_left` or `raw_right`, or why no single
    /// effect covers both.
    pub fn parallel(raw_left: &Arity, raw_right: &Arity) -> (res: Result<
        Arity,
        ArityCombineError,
    >)
        requires
            raw_left@.wf(),
            raw_right@.wf(),
        ensures
            match parallel_of(raw_left@, raw_right@) {
                Ok(m) => res is Ok && res->Ok_0@ == m && m.wf(),
                Err(e) => res is Err && res->Err_0 == e,
            },
    {
        let mut left = raw_left.duplicate();
        let mut right = raw_right.duplicate();
        let ghost n = longer(raw_left@.pops.len(), raw_right@.pops.len());
        while left.pops.len() < right.pops.len()
            invariant
                left@.wf(),
                right@ == raw_right@,
                left@.padded_to(n) == raw_left@.padded_to(n),
                n == longer(raw_left@.pops.len(), raw_right@.pops.len()),
                left@.pops.len() <= n,
                left@.pops.len() <= right@.pops.len() || left@.pops.len() == raw_left@.pops.len(),
                left@.pops.len() >= raw_left@.pops.len(),
            decreases right.pops.len() - left.pops.len(),
        {
            left.extend_pops();
        }
        while right.pops.len() < left.pops.len()
            invariant
                right@.wf(),
                left@.wf(),
                right@.padded_to(n) == raw_right@.padded_to(n),
                left@.padded_to(n) == raw_left@.padded_to(n),
                left@.pops.len() <= n,
                right@.pops.len() <= n,
                left@.pops.len() == n || right@.pops.len() == n,
            decreases left.pops.len() - right.pops.len(),
        {
            right.extend_pops();
        }
        assert(left@.pops.len() == n && right@.pops.len() == n);
        assert(left@ == raw_left@.padded_to(n));
        assert(right@ == raw_right@.padded_to(n));
        if left.pushes.len() != right.pushes.len() {
            return Err(ArityCombineError::DifferingSizes);
        }
        let mut pops: Vec<Type> = Vec::new();
        let mut i: usize = 0;
        while i < left.pops.len()
            invariant
                i <= left.pops.len(),
                left.pops.len() == right.pops.len(),
                n == longer(raw_left@.pops.len(), raw_right@.pops.len()),
                left@ == raw_left@.padded_to(n),
                right@ == raw_right@.padded_to(n),
                left@.pushes.len() == right@.pushes.len(),
                pops.len() == i,
                forall|j: int|
                    0 <= j < i ==> meet(right.pops@[j], left.pops@[j]) == Some(#[trigger] pops@[j]),
            decreases left.pops.len() - i,
        {
            match right.pops[i].inter(left.pops[i]) {
                Some(t) => {
                    pops.push(t);
                },
                None => {
                    assert(meet(left@.pops[i as int], right@.pops[i as int]) is None);
                    return Err(ArityCombineError::IncompatibleTypes);
                },
            }
            i += 1;
        }
        let ghost lp = left@;
        let ghost rp = right@;
        proof {
            assert forall|j: int| 0 <= j < lp.pops.len() && j < rp.pops.len() implies (
            #[trigger] meet(lp.pops[j], rp.pops[j])) is Some by {
                assert(meet(right.pops@[j], left.pops@[j]) == Some(pops@[j]));
            }
            assert(pops@ =~= Seq::new(n, |i: int| meet(rp.pops[i], lp.pops[i])->0));
        }
        let mut pushes: Vec<ResultantType> = Vec::new();
        let mut i: usize = 0;
        while i < left.pushes.len()
            invariant
                i <= left.pushes.len(),
                left.pushes.len() == right.pushes.len(),
                pushes.len() == i,
                left@ == lp,
                right@ == rp,
                lp.wf(),
                rp.wf(),
                pops.len() == lp.pops.len(),
                pops.len() == rp.pops.len(),
                forall|j: int|
                    0 <= j < i ==> (#[trigger] pushes@[j])@ == resolved(lp.pushes[j], pops@).join(
                        resolved(rp.pushes[j], pops@),
                    ) && pushes@[j]@.wf(pops.len() as int),
            decreases left.pushes.len() - i,
        {
            assert(lp.pushes[i as int] == left.pushes@[i as int]@);
            assert(rp.pushes[i as int] == right.pushes@[i as int]@);
            assert(lp.pushes[i as int].wf(lp.pops.len() as int));
            assert(rp.pushes[i as int].wf(rp.pops.len() as int));
            let a = resolve(left.pushes[i].duplicate(), &pops);
            let b = resolve(right.pushes[i].duplicate(), &pops);
            proof {
                join_keeps_wf(a@, b@, pops.len() as int);
            }
            let joined = match a.union(&b) {
                Ok(v) => v,
                Err(_) => a,
            };
            pushes.push(joined);
            i += 1;
        }
        assert(resultants(pushes@) =~= Seq::new(
            lp.pushes.len(),
            |i: int| resolved(lp.pushes[i], pops@).join(resolved(rp.pushes[i], pops@)),
        ));
        let lc = resolve_effects(&left.captures, &pops);
        let rc = resolve_effects(&right.captures, &pops);
        let captures = alternatives(&lc, &rc, Ghost(pops.len() as int));
        let out = Arity { pops, pushes, captures };
        Ok(out)
    }

    /// What this effect becomes when a slot of type `other` is taken from it.
    pub fn with_pop(self, other: Type) -> (r: Arity)
        requires
            self@.wf(),
            self@.popped(other) is Ok,
        ensures
            r@ == self@.popped(other)->Ok_0.0,
            r@.wf(),
    {
        let mut s = self;
        let _ = s.pop(other);
        s
    }

    /// This effect with one more pushed slot of a known type.
    pub fn with_push(self, other: Type) -> (r: Arity)
        ensures
            r@ == (ArityModel {
                pops: self@.pops,
                pushes: self@.pushes.push(Resultant::Normal(other)),
                captures: self@.captures,
            }),
            self@.wf() ==> r@.wf(),
    {
        let mut s = self;
        s.push(other);
        s
    }

    /// This effect followed by `other`, for effects that can follow each other.
    pub fn with_serial(self, other: &Arity) -> (r: Arity)
        requires
            self@.wf(),
            other@.wf(),
            serial_of(self@, other@) is Ok,
        ensures
            r@ == serial_of(self@, other@)->Ok_0,
            r@.wf(),
    {
        match Arity::serial(&self, other) {
            Ok(r) => r,
            Err(_) => self,
        }
    }
}

fn resolve_effects(list: &Vec<(String, VariableEffect)>, pops: &Vec<Type>) -> (r: Vec<
    (String, VariableEffect),
>)
    requires
        effects_wf(effects(list@), pops.len() as int),
    ensures
        effects(r@) == effects(list@).map_values(|e: Effect| effect_resolved(e, pops@)),
        effects_wf(effects(r@), pops.len() as int),
{
    let mut out: Vec<(String, VariableEffect)> = Vec::new();
    let mut i: usize = 0;
    while i < list.len()
        invariant
            i <= list.len(),
            out.len() == i,
            effects_wf(effects(list@), pops.len() as int),
            forall|j: int|
                0 <= j < i ==> effect_of(#[trigger] out@[j]) == effect_resolved(
                    effect_of(list@[j]),
                    pops@,
                ),
            effects_wf(effects(out@), pops.len() as int),
        decreases list.len() - i,
    {
        let c = &list[i];
        let ghost before = effects(out@);
        assert(effects(list@)[i as int] == effect_of(list@[i as int]));
        let defines = match &c.1.defines {
            Some((t, certainty)) => Some((resolve(t.duplicate(), pops), *certainty)),
            None => None,
        };
        out.push((c.0.clone(), VariableEffect { expects: c.1.expects, defines }));
        proof {
            assert forall|x: int| 0 <= x < effects(out@).len() implies match (#[trigger] effects(
                out@,
            )[x]).defines {
                Some((r, _)) => r.wf(pops.len() as int),
                None => true,
            } by {
                if x < i {
                    assert(effects(out@)[x] == before[x]);
                }
            }
        }
        i += 1;
    }
    assert(effects(out@) =~= effects(list@).map_values(|e: Effect| effect_resolved(e, pops@)));
    out
}

} // verus!
