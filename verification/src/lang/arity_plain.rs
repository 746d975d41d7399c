//! Sequencing of stack effects whose pushed types are all known: a closed form, and the
//! proof that such sequencing is associative.
use vstd::prelude::*;
use crate::lang::arity::{
    chained, serial_of, restated, ArityCombineError, ArityModel, Effect, Resultant,
};
use crate::lang::arity::{either, longer, meets_all, parallel_of};
use crate::lang::types::{assignable, join, meet, Type};

verus! {

/// The effect has no capture effects and pushes only slots of known type.
pub open spec fn is_plain(a: ArityModel) -> bool {
    &&& a.captures.len() == 0
    &&& forall|i: int| 0 <= i < a.pushes.len() ==> (#[trigger] a.pushes[i]) is Normal
}

/// A pushed slot of known type can be taken as a slot of type `t`.
pub open spec fn fits(x: Resultant, t: Type) -> bool {
    x matches Resultant::Normal(u) && (assignable(u, t) || assignable(t, u))
}

/// The smaller of two lengths.
pub open spec fn shorter(a: nat, b: nat) -> nat {
    if a <= b {
        a
    } else {
        b
    }
}

/// The `m` topmost pushed slots can be taken as the first `m` of `terms`, top first.
pub open spec fn all_fit(q: Seq<Resultant>, terms: Seq<Type>, m: nat) -> bool {
    forall|j: int| 0 <= j < m ==> fits(#[trigger] q[q.len() - 1 - j], terms[j])
}

/// What is left of an effect after the first `k` of `terms` were taken from it.
pub open spec fn after_taking(a: ArityModel, terms: Seq<Type>, k: nat) -> ArityModel {
    let m = shorter(k, a.pushes.len());
    ArityModel {
        pops: a.pops + terms.subrange(m as int, k as int),
        pushes: a.pushes.take(a.pushes.len() - m),
        captures: a.captures,
    }
}

/// The effect of one plain effect followed by another: the second takes what it pops
/// from what the first pushes, as far as that reaches, and pops the rest itself.
pub open spec fn plain_then(a: ArityModel, b: ArityModel) -> Result<ArityModel, ArityCombineError> {
    let m = shorter(a.pushes.len(), b.pops.len());
    if all_fit(a.pushes, b.pops, m) {
        Ok(
            ArityModel {
                pops: a.pops + b.pops.subrange(m as int, b.pops.len() as int),
                pushes: a.pushes.take(a.pushes.len() - m) + b.pushes,
                captures: Seq::empty(),
            },
        )
    } else {
        Err(ArityCombineError::IncompatibleTypes)
    }
}

/// Taking slots from an effect that pushes only known types: the closed form.
pub proof fn taking_from_plain(a: ArityModel, terms: Seq<Type>, k: nat)
    requires
        forall|i: int| 0 <= i < a.pushes.len() ==> (#[trigger] a.pushes[i]) is Normal,
        k <= terms.len(),
    ensures
        all_fit(a.pushes, terms, shorter(k, a.pushes.len())) ==> a.popped_all(terms, k) is Ok
            && a.popped_all(terms, k)->Ok_0.0 == after_taking(a, terms, k) && a.popped_all(
            terms,
            k,
        )->Ok_0.1.len() == k,
        !all_fit(a.pushes, terms, shorter(k, a.pushes.len())) ==> a.popped_all(terms, k) == Err::<
            (ArityModel, Seq<Resultant>),
            ArityCombineError,
        >(ArityCombineError::IncompatibleTypes),
    decreases k,
{
    let q = a.pushes;
    if k == 0 {
        assert(after_taking(a, terms, 0).pops =~= a.pops);
        assert(after_taking(a, terms, 0).pushes =~= a.pushes);
    } else {
        taking_from_plain(a, terms, (k - 1) as nat);
        let m0 = shorter((k - 1) as nat, q.len());
        let m = shorter(k, q.len());
        if all_fit(q, terms, m0) {
            let s = after_taking(a, terms, (k - 1) as nat);
            if k - 1 < q.len() {
                // the slot comes from what the effect pushes
                assert(s.pushes.len() == q.len() - (k - 1));
                assert(s.pushes.last() == q[q.len() - 1 - (k - 1)]);
                let top = q[q.len() - 1 - (k - 1)];
                assert(top is Normal);
                if fits(top, terms[k - 1]) {
                    assert forall|j: int| 0 <= j < m implies fits(
                        #[trigger] q[q.len() - 1 - j],
                        terms[j],
                    ) by {
                        if j < m0 {
                        }
                    }
                    let next = after_taking(a, terms, k);
                    assert(next.pops =~= s.pops);
                    assert(next.pushes =~= s.pushes.drop_last());
                } else {
                    assert(!all_fit(q, terms, m));
                }
            } else {
                // the effect pushes nothing more: the slot is popped
                assert(s.pushes.len() == 0);
                let next = after_taking(a, terms, k);
                assert(next.pops =~= s.pops.push(terms[k - 1]));
                assert(next.pushes =~= s.pushes);
            }
        } else {
            let j = choose|j: int| 0 <= j < m0 && !fits(#[trigger] q[q.len() - 1 - j], terms[j]);
            assert(!fits(q[q.len() - 1 - j], terms[j]));
        }
    }
}

/// On plain effects, sequencing is the closed form.
pub proof fn serial_of_plain(a: ArityModel, b: ArityModel)
    requires
        is_plain(a),
        is_plain(b),
    ensures
        serial_of(a, b) == plain_then(a, b),
        plain_then(a, b) is Ok ==> is_plain(plain_then(a, b)->Ok_0),
{
    taking_from_plain(a, b.pops, b.pops.len());
    let m = shorter(a.pushes.len(), b.pops.len());
    assert(m == shorter(b.pops.len(), a.pushes.len()));
    if all_fit(a.pushes, b.pops, m) {
        let s = a.popped_all(b.pops, b.pops.len())->Ok_0.0;
        let rec = a.popped_all(b.pops, b.pops.len())->Ok_0.1;
        let r = serial_of(a, b)->Ok_0;
        let moved = b.pushes.map_values(|x: Resultant| restated(x, rec, s.captures));
        assert(moved =~= b.pushes);
        assert(s.captures =~= Seq::<Effect>::empty());
        let none = Seq::<Effect>::empty();
        assert(b.captures.map_values(
            |e: Effect| crate::lang::arity::effect_restated(e, rec, s.captures),
        ) =~= none);
        assert(chained(none, none) =~= none);
        assert(r.captures =~= none);
        assert(r.pushes =~= plain_then(a, b)->Ok_0.pushes);
        assert(r.pops =~= plain_then(a, b)->Ok_0.pops);
        let p = plain_then(a, b)->Ok_0;
        assert forall|i: int| 0 <= i < p.pushes.len() implies (#[trigger] p.pushes[i]) is Normal by {
            if i < a.pushes.len() - m {
                assert(p.pushes[i] == a.pushes[i]);
            } else {
                assert(p.pushes[i] == b.pushes[i - (a.pushes.len() - m)]);
            }
        }
    }
}

/// One plain effect followed by the outcome of two others.
pub open spec fn then_after(a: ArityModel, y: Result<ArityModel, ArityCombineError>) -> Result<
    ArityModel,
    ArityCombineError,
> {
    match y {
        Ok(b) => plain_then(a, b),
        Err(e) => Err(e),
    }
}

/// The outcome of two plain effects followed by a third.
pub open spec fn and_then(x: Result<ArityModel, ArityCombineError>, c: ArityModel) -> Result<
    ArityModel,
    ArityCombineError,
> {
    match x {
        Ok(a) => plain_then(a, c),
        Err(e) => Err(e),
    }
}

/// The closed form of sequencing is associative: both groupings fail together, and
/// give the same effect when they do not.
pub proof fn plain_then_is_associative(a: ArityModel, b: ArityModel, c: ArityModel)
    requires
        forall|i: int| 0 <= i < a.pushes.len() ==> (#[trigger] a.pushes[i]) is Normal,
        forall|i: int| 0 <= i < b.pushes.len() ==> (#[trigger] b.pushes[i]) is Normal,
    ensures
        and_then(plain_then(a, b), c) == then_after(a, plain_then(b, c)),
{
    let qa = a.pushes;
    let pb = b.pops;
    let qb = b.pushes;
    let pc = c.pops;
    let na = qa.len();
    let lb = pb.len();
    let nb = qb.len();
    let lc = pc.len();
    let m1 = shorter(na, lb);
    let m3 = shorter(nb, lc);
    let qab = qa.take(na - m1) + qb;
    let pbc = pb + pc.subrange(m3 as int, lc as int);
    let m2 = shorter(qab.len(), lc);
    let m4 = shorter(na, pbc.len());
    let f1 = all_fit(qa, pb, m1);
    let f2 = all_fit(qab, pc, m2);
    let f3 = all_fit(qb, pc, m3);
    let f4 = all_fit(qa, pbc, m4);
    if na <= lb || lc <= nb {
        // what the third effect takes comes from the second alone
        assert(m4 == m1);
        assert(m2 == m3);
        assert(f2 == f3) by {
            if f2 {
                assert forall|j: int| 0 <= j < m3 implies fits(
                    #[trigger] qb[qb.len() - 1 - j],
                    pc[j],
                ) by {
                    assert(qab[qab.len() - 1 - j] == qb[qb.len() - 1 - j]);
                }
            }
            if f3 {
                assert forall|j: int| 0 <= j < m2 implies fits(
                    #[trigger] qab[qab.len() - 1 - j],
                    pc[j],
                ) by {
                    assert(qab[qab.len() - 1 - j] == qb[qb.len() - 1 - j]);
                }
            }
        }
        assert(f4 == f1) by {
            if f4 {
                assert forall|j: int| 0 <= j < m1 implies fits(
                    #[trigger] qa[qa.len() - 1 - j],
                    pb[j],
                ) by {
                    assert(pbc[j] == pb[j]);
                }
            }
            if f1 {
                assert forall|j: int| 0 <= j < m4 implies fits(
                    #[trigger] qa[qa.len() - 1 - j],
                    pbc[j],
                ) by {
                    assert(pbc[j] == pb[j]);
                }
            }
        }
        if f1 && f3 {
            let left = and_then(plain_then(a, b), c)->Ok_0;
            let right = then_after(a, plain_then(b, c))->Ok_0;
            assert(left.pops =~= right.pops);
            assert(left.pushes =~= right.pushes);
        }
    } else {
        // the third effect reaches through the second into the first
        let d = shorter((na - lb) as nat, (lc - nb) as nat);
        assert(m1 == lb);
        assert(m3 == nb);
        assert(m2 == nb + d);
        assert(m4 == lb + d);
        let g = forall|i: int|
            0 <= i < d ==> fits(#[trigger] qa[na - lb - 1 - i], pc[nb + i]);
        assert(f2 == (f3 && g)) by {
            if f2 {
                assert forall|j: int| 0 <= j < m3 implies fits(
                    #[trigger] qb[qb.len() - 1 - j],
                    pc[j],
                ) by {
                    assert(qab[qab.len() - 1 - j] == qb[qb.len() - 1 - j]);
                }
                assert forall|i: int| 0 <= i < d implies fits(
                    #[trigger] qa[na - lb - 1 - i],
                    pc[nb + i],
                ) by {
                    assert(qab[qab.len() - 1 - (nb + i)] == qa[na - lb - 1 - i]);
                }
            }
            if f3 && g {
                assert forall|j: int| 0 <= j < m2 implies fits(
                    #[trigger] qab[qab.len() - 1 - j],
                    pc[j],
                ) by {
                    if j < nb {
                        assert(qab[qab.len() - 1 - j] == qb[qb.len() - 1 - j]);
                    } else {
                        assert(qab[qab.len() - 1 - j] == qa[na - lb - 1 - (j - nb)]);
                    }
                }
            }
        }
        assert(f4 == (f1 && g)) by {
            if f4 {
                assert forall|j: int| 0 <= j < m1 implies fits(
                    #[trigger] qa[qa.len() - 1 - j],
                    pb[j],
                ) by {
                    assert(pbc[j] == pb[j]);
                }
                assert forall|i: int| 0 <= i < d implies fits(
                    #[trigger] qa[na - lb - 1 - i],
                    pc[nb + i],
                ) by {
                    assert(pbc[lb + i] == pc[nb + i]);
                    assert(qa[qa.len() - 1 - (lb + i)] == qa[na - lb - 1 - i]);
                }
            }
            if f1 && g {
                assert forall|j: int| 0 <= j < m4 implies fits(
                    #[trigger] qa[qa.len() - 1 - j],
                    pbc[j],
                ) by {
                    if j < lb {
                        assert(pbc[j] == pb[j]);
                    } else {
                        assert(pbc[j] == pc[nb + (j - lb)]);
                        assert(qa[qa.len() - 1 - j] == qa[na - lb - 1 - (j - lb)]);
                    }
                }
            }
        }
        if f1 && f3 && g {
            let left = and_then(plain_then(a, b), c)->Ok_0;
            let right = then_after(a, plain_then(b, c))->Ok_0;
            assert(left.pops =~= right.pops);
            assert(left.pushes =~= right.pushes);
        }
    }
}

/// Sequencing is associative on effects without capture effects whose pushed types are
/// all known: both groupings fail together, and give the same effect when they do not.
pub proof fn serial_is_associative(a: ArityModel, b: ArityModel, c: ArityModel)
    requires
        is_plain(a),
        is_plain(b),
        is_plain(c),
    ensures
        (match serial_of(a, b) {
            Ok(ab) => serial_of(ab, c),
            Err(e) => Err(e),
        }) == (match serial_of(b, c) {
            Ok(bc) => serial_of(a, bc),
            Err(e) => Err(e),
        }),
{
    serial_of_plain(a, b);
    serial_of_plain(b, c);
    plain_then_is_associative(a, b, c);
    if plain_then(a, b) is Ok {
        serial_of_plain(plain_then(a, b)->Ok_0, c);
    }
    if plain_then(b, c) is Ok {
        serial_of_plain(a, plain_then(b, c)->Ok_0);
    }
}

/// The two effects pop equally many slots and push equally many.
pub open spec fn same_size(a: ArityModel, b: ArityModel) -> bool {
    a.pops.len() == b.pops.len() && a.pushes.len() == b.pushes.len()
}

/// The type of a pushed slot of known type.
pub open spec fn known(x: Resultant) -> Type {
    match x {
        Resultant::Normal(t) => t,
        _ => Type::Unknown,
    }
}

/// The choice between two plain effects of the same size: slot by slot, the meet of
/// what they pop and the join of what they push.
pub open spec fn plain_or(l: ArityModel, r: ArityModel) -> Result<ArityModel, ArityCombineError> {
    if meets_all(l.pops, r.pops) {
        Ok(
            ArityModel {
                pops: Seq::new(l.pops.len(), |i: int| meet(r.pops[i], l.pops[i])->0),
                pushes: Seq::new(
                    l.pushes.len(),
                    |i: int| Resultant::Normal(join(known(l.pushes[i]), known(r.pushes[i]))),
                ),
                captures: Seq::empty(),
            },
        )
    } else {
        Err(ArityCombineError::IncompatibleTypes)
    }
}

/// On plain effects of the same size, the choice is the slot-by-slot form.
pub proof fn parallel_of_plain(l: ArityModel, r: ArityModel)
    requires
        is_plain(l),
        is_plain(r),
        same_size(l, r),
    ensures
        parallel_of(l, r) == plain_or(l, r),
        plain_or(l, r) is Ok ==> is_plain(plain_or(l, r)->Ok_0) && same_size(
            plain_or(l, r)->Ok_0,
            l,
        ),
{
    let n = l.pops.len();
    assert(longer(n, n) == n);
    assert(l.padded_to(n) == l);
    assert(r.padded_to(n) == r);
    if meets_all(l.pops, r.pops) {
        let got = parallel_of(l, r)->Ok_0;
        let want = plain_or(l, r)->Ok_0;
        assert(got.pops =~= want.pops);
        assert forall|i: int| 0 <= i < got.pushes.len() implies got.pushes[i]
            == want.pushes[i] by {
            assert(l.pushes[i] is Normal);
            assert(r.pushes[i] is Normal);
        }
        assert(got.pushes =~= want.pushes);
        let none = Seq::<Effect>::empty();
        assert(l.captures.map_values(|e: Effect| crate::lang::arity::effect_resolved(e, got.pops))
            =~= none);
        assert(r.captures.map_values(|e: Effect| crate::lang::arity::effect_resolved(e, got.pops))
            =~= none);
        assert(either(none, none) =~= none);
        assert(got.captures =~= want.captures);
    }
}

/// The meet of three types does not depend on the grouping: both groupings are
/// defined together, and then agree.
pub proof fn meet_is_associative(a: Type, b: Type, c: Type)
    ensures
        (meet(a, b) is Some && meet(meet(a, b)->0, c) is Some) <==> (meet(b, c) is Some && meet(
            a,
            meet(b, c)->0,
        ) is Some),
        meet(a, b) is Some && meet(meet(a, b)->0, c) is Some ==> meet(meet(a, b)->0, c) == meet(
            a,
            meet(b, c)->0,
        ),
{
}

/// The choice between effects is associative on effects of one size that have no
/// capture effects and push only known types: both groupings fail together, and give
/// the same effect when they do not.
pub proof fn parallel_is_associative(a: ArityModel, b: ArityModel, c: ArityModel)
    requires
        is_plain(a),
        is_plain(b),
        is_plain(c),
        same_size(a, b),
        same_size(b, c),
    ensures
        (match parallel_of(a, b) {
            Ok(ab) => parallel_of(ab, c),
            Err(e) => Err(e),
        }) == (match parallel_of(b, c) {
            Ok(bc) => parallel_of(a, bc),
            Err(e) => Err(e),
        }),
{
    parallel_of_plain(a, b);
    parallel_of_plain(b, c);
    let n = a.pops.len() as int;
    let left_ok = meets_all(a.pops, b.pops) && meets_all(plain_or(a, b)->Ok_0.pops, c.pops);
    let right_ok = meets_all(b.pops, c.pops) && meets_all(a.pops, plain_or(b, c)->Ok_0.pops);
    if meets_all(a.pops, b.pops) {
        parallel_of_plain(plain_or(a, b)->Ok_0, c);
    }
    if meets_all(b.pops, c.pops) {
        parallel_of_plain(a, plain_or(b, c)->Ok_0);
    }
    if left_ok {
        let ab = plain_or(a, b)->Ok_0;
        assert forall|i: int| 0 <= i < n implies (#[trigger] meet(b.pops[i], c.pops[i])) is Some by {
            assert(meet(a.pops[i], b.pops[i]) is Some);
            assert(meet(ab.pops[i], c.pops[i]) is Some);
            meet_is_associative(a.pops[i], b.pops[i], c.pops[i]);
        }
        let bc = plain_or(b, c)->Ok_0;
        assert forall|i: int| 0 <= i < n implies (#[trigger] meet(a.pops[i], bc.pops[i])) is Some by {
            assert(meet(a.pops[i], b.pops[i]) is Some);
            assert(meet(ab.pops[i], c.pops[i]) is Some);
            assert(meet(b.pops[i], c.pops[i]) is Some);
            meet_is_associative(a.pops[i], b.pops[i], c.pops[i]);
        }
        assert(right_ok);
    }
    if right_ok {
        let bc = plain_or(b, c)->Ok_0;
        assert forall|i: int| 0 <= i < n implies (#[trigger] meet(a.pops[i], b.pops[i])) is Some by {
            assert(meet(b.pops[i], c.pops[i]) is Some);
            assert(meet(a.pops[i], bc.pops[i]) is Some);
            meet_is_associative(a.pops[i], b.pops[i], c.pops[i]);
        }
        let ab = plain_or(a, b)->Ok_0;
        assert forall|i: int| 0 <= i < n implies (#[trigger] meet(ab.pops[i], c.pops[i])) is Some by {
            assert(meet(b.pops[i], c.pops[i]) is Some);
            assert(meet(a.pops[i], bc.pops[i]) is Some);
            assert(meet(a.pops[i], b.pops[i]) is Some);
            meet_is_associative(a.pops[i], b.pops[i], c.pops[i]);
        }
        assert(left_ok);
    }
    if left_ok && right_ok {
        let ab = plain_or(a, b)->Ok_0;
        let bc = plain_or(b, c)->Ok_0;
        let left = plain_or(ab, c)->Ok_0;
        let right = plain_or(a, bc)->Ok_0;
        assert forall|i: int| 0 <= i < n implies left.pops[i] == right.pops[i] by {
            assert(meet(a.pops[i], b.pops[i]) is Some);
            assert(meet(b.pops[i], c.pops[i]) is Some);
            meet_is_associative(a.pops[i], b.pops[i], c.pops[i]);
        }
        assert(left.pops =~= right.pops);
        assert(left.pushes =~= right.pushes);
    }
}

} // verus!
