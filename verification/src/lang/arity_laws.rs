//! Algebraic laws of sequencing and alternation of stack effects.
use vstd::prelude::*;
use crate::lang::arity::{
    chained_one, effect_resolved, effect_restated, either, either_one, find, fresh, gathered,
    longer, lookup, meets_all, parallel_of, resolved, serial_of, restated, weakened,
    ArityCombineError, ArityModel, Effect, Resultant,
};
use crate::lang::arity_ops::wf_grows;
use crate::lang::multi_index::{
    merged_is_a_semilattice, merged_is_the_union, sorted_lists_are_canonical, MultiIndex,
};
use crate::lang::types::{join, meet, Type};

verus! {

/// No two effects of the list have the same name.
pub open spec fn distinct_names(list: Seq<Effect>) -> bool {
    forall|i: int, j: int|
        0 <= i < j < list.len() ==> (#[trigger] list[i]).name != (#[trigger] list[j]).name
}

/// The join of pushed types is idempotent and commutative.
pub proof fn resultant_join_laws(x: Resultant, y: Resultant, n: int)
    requires
        x.wf(n),
        y.wf(n),
    ensures
        x.join(x) == x,
        x.join(y) == y.join(x),
{
    match (x, y) {
        (Resultant::Dependent(a), Resultant::Dependent(b)) => {
            merged_is_a_semilattice(a, b, a);
        },
        (Resultant::Dependent(a), _) => {
            merged_is_a_semilattice(a, a, a);
        },
        _ => {},
    }
}

/// The join of pushed types is associative.
pub proof fn resultant_join_is_associative(x: Resultant, y: Resultant, z: Resultant, n: int)
    requires
        x.wf(n),
        y.wf(n),
        z.wf(n),
    ensures
        x.join(y).join(z) == x.join(y.join(z)),
{
    match (x, y, z) {
        (Resultant::Dependent(a), Resultant::Dependent(b), Resultant::Dependent(c)) => {
            merged_is_a_semilattice(a, b, c);
        },
        _ => {},
    }
}

/// Running nothing after an effect leaves the effect as it is.
pub proof fn serial_noop_right(a: ArityModel)
    ensures
        serial_of(a, ArityModel::noop()) == Ok::<ArityModel, ArityCombineError>(a),
{
    let b = ArityModel::noop();
    let r = serial_of(a, b)->Ok_0;
    assert(a.popped_all(b.pops, 0) == Ok::<(ArityModel, Seq<Resultant>), ArityCombineError>(
        (a, Seq::empty()),
    ));
    assert(r.pops == a.pops);
    assert(r.pushes =~= a.pushes);
    assert forall|i: int| 0 <= i < a.captures.len() implies chained_one(
        #[trigger] a.captures[i],
        find(Seq::<Effect>::empty(), a.captures[i].name),
    ) == a.captures[i] by {}
    assert(r.captures =~= a.captures);
}

/// Taking slots from the effect of nothing pops each of them.
proof fn popped_all_from_noop(terms: Seq<Type>, k: nat)
    requires
        k <= terms.len(),
        terms.len() <= usize::MAX,
    ensures
        ArityModel::noop().popped_all(terms, k) == Ok::<
            (ArityModel, Seq<Resultant>),
            ArityCombineError,
        >(
            (
                ArityModel { pops: terms.take(k as int), pushes: Seq::empty(), captures: Seq::empty() },
                Seq::new(k, |i: int| Resultant::Dependent(MultiIndex::unit(i as usize))),
            ),
        ),
    decreases k,
{
    if k == 0 {
        assert(terms.take(0) =~= Seq::<Type>::empty());
        assert(Seq::new(0, |i: int| Resultant::Dependent(MultiIndex::unit(i as usize)))
            =~= Seq::<Resultant>::empty());
    } else {
        popped_all_from_noop(terms, (k - 1) as nat);
        let s = ArityModel {
            pops: terms.take(k - 1),
            pushes: Seq::empty(),
            captures: Seq::empty(),
        };
        let rec = Seq::new((k - 1) as nat, |i: int| Resultant::Dependent(MultiIndex::unit(i as usize)));
        assert(s.pops.push(terms[k - 1]) =~= terms.take(k as int));
        assert(rec.push(Resultant::Dependent(MultiIndex::unit(s.pops.len() as usize))) =~= Seq::new(
            k,
            |i: int| Resultant::Dependent(MultiIndex::unit(i as usize)),
        ));
    }
}

/// Gathering over slots that each stand for themselves gives the set itself.
proof fn gathered_identity(m: MultiIndex, rec: Seq<Resultant>)
    requires
        m.sorted(),
        m.below(rec.len() as int),
        forall|i: int|
            0 <= i < rec.len() ==> #[trigger] rec[i] == Resultant::Dependent(
                MultiIndex::unit(i as usize),
            ),
    ensures
        gathered(m, rec) == Resultant::Dependent(m),
    decreases m,
{
    match m.next {
        Some(n) => {
            gathered_identity(*n, rec);
            let u = MultiIndex::unit(m.el);
            assert(rec[m.el as int] == Resultant::Dependent(u));
            merged_is_the_union(u, *n, 0);
            assert forall|j: usize| #[trigger] u.merged(*n).has(j) == m.has(j) by {
                merged_is_the_union(u, *n, j);
            }
            sorted_lists_are_canonical(u.merged(*n), m);
        },
        None => {},
    }
}

/// With nothing known, every effect of a list is fresh.
proof fn fresh_of_nothing_known(list: Seq<Effect>, k: nat)
    requires
        k <= list.len(),
    ensures
        fresh(list, Seq::empty(), k) == list.take(k as int),
    decreases k,
{
    if k == 0 {
        assert(list.take(0) =~= Seq::<Effect>::empty());
    } else {
        fresh_of_nothing_known(list, (k - 1) as nat);
        assert(list.take(k - 1).push(list[k - 1]) =~= list.take(k as int));
    }
}

/// Running an effect after nothing gives the effect itself.
pub proof fn serial_noop_left(a: ArityModel)
    requires
        a.wf(),
        a.pops.len() <= usize::MAX,
    ensures
        serial_of(ArityModel::noop(), a) == Ok::<ArityModel, ArityCombineError>(a),
{
    let n = a.pops.len();
    popped_all_from_noop(a.pops, n);
    assert(a.pops.take(n as int) =~= a.pops);
    let rec = Seq::new(n, |i: int| Resultant::Dependent(MultiIndex::unit(i as usize)));
    let none = Seq::<Effect>::empty();
    let r = serial_of(ArityModel::noop(), a)->Ok_0;
    assert forall|x: Resultant| x.wf(n as int) implies restated(x, rec, none) == x by {
        match x {
            Resultant::Dependent(m) => gathered_identity(m, rec),
            _ => {},
        }
    }
    assert(r.pushes =~= a.pushes);
    let moved = a.captures.map_values(|e: Effect| effect_restated(e, rec, none));
    assert forall|i: int| 0 <= i < a.captures.len() implies moved[i] == a.captures[i] by {
        match a.captures[i].defines {
            Some((x, _)) => {
                assert(x.wf(n as int));
            },
            None => {},
        }
    }
    assert(moved =~= a.captures);
    fresh_of_nothing_known(moved, moved.len());
    assert(moved.take(moved.len() as int) =~= moved);
    assert(r.captures =~= a.captures);
}

/// In a list of distinct names an effect is found under its own name.
proof fn find_own_name(list: Seq<Effect>, i: int, from: int)
    requires
        distinct_names(list),
        0 <= from <= i < list.len(),
    ensures
        lookup(list, list[i].name, from) == Some(i),
    decreases i - from,
{
    if from < i {
        assert(list[from].name != list[i].name);
        find_own_name(list, i, from + 1);
    }
}

/// None of the effects of a list of distinct names is fresh against the list itself.
proof fn nothing_fresh_against_itself(list: Seq<Effect>, k: nat)
    requires
        distinct_names(list),
        k <= list.len(),
    ensures
        fresh(list, list, k) == Seq::<Effect>::empty(),
    decreases k,
{
    if k > 0 {
        nothing_fresh_against_itself(list, (k - 1) as nat);
        find_own_name(list, k - 1, 0);
    }
}

/// Choosing between an effect and itself gives the effect.
pub proof fn parallel_is_idempotent(a: ArityModel)
    requires
        a.wf(),
        a.normal(),
        distinct_names(a.captures),
    ensures
        parallel_of(a, a) == Ok::<ArityModel, ArityCombineError>(a),
{
    let n = a.pops.len();
    assert(longer(n, n) == n);
    assert(a.padded_to(n) == a);
    let r = parallel_of(a, a)->Ok_0;
    assert(meets_all(a.pops, a.pops));
    assert(r.pops =~= a.pops);
    assert forall|i: int| 0 <= i < a.pushes.len() implies resolved(a.pushes[i], a.pops).join(
        resolved(a.pushes[i], a.pops),
    ) == a.pushes[i] by {
        assert(a.pushes[i].wf(n as int) && a.pushes[i].normal(a.pops));
        resultant_join_laws(a.pushes[i], a.pushes[i], n as int);
    }
    assert(r.pushes =~= a.pushes);
    let c = a.captures.map_values(|e: Effect| effect_resolved(e, a.pops));
    assert forall|i: int| 0 <= i < a.captures.len() implies c[i] == a.captures[i] by {
        match a.captures[i].defines {
            Some((x, _)) => {
                assert(x.wf(n as int));
            },
            None => {},
        }
    }
    assert(c =~= a.captures);
    nothing_fresh_against_itself(c, c.len());
    assert forall|i: int| 0 <= i < c.len() implies either_one(c[i], find(c, c[i].name))
        == c[i] by {
        find_own_name(c, i, 0);
        match c[i].defines {
            Some((x, _)) => {
                assert(a.captures[i].defines == Some((x, c[i].defines->Some_0.1)));
                resultant_join_laws(x, x, n as int);
            },
            None => {},
        }
    }
    assert(fresh(c, c, c.len()).map_values(|e: Effect| weakened(e)) =~= Seq::<Effect>::empty());
    assert(r.captures =~= a.captures);
}

/// Padding keeps an effect well-formed.
proof fn padded_to_keeps_wf(a: ArityModel, n: nat)
    requires
        a.wf(),
        n <= usize::MAX,
    ensures
        a.padded_to(n).wf(),
        a.padded_to(n).pops.len() == longer(a.pops.len(), n),
        a.padded_to(n).captures == a.captures,
    decreases n - a.pops.len(),
{
    if a.pops.len() < n {
        let p = a.padded();
        let len = a.pops.len() as int;
        assert forall|i: int| 0 <= i < p.pushes.len() implies (#[trigger] p.pushes[i]).wf(
            len + 1,
        ) by {
            if i > 0 {
                assert(p.pushes[i] == a.pushes[i - 1]);
                wf_grows(a.pushes[i - 1], len, len + 1);
            }
        }
        assert forall|i: int| 0 <= i < p.captures.len() implies match (
        #[trigger] p.captures[i]).defines {
            Some((r, _)) => r.wf(len + 1),
            None => true,
        } by {
            match a.captures[i].defines {
                Some((r, _)) => wf_grows(r, len, len + 1),
                None => {},
            }
        }
        padded_to_keeps_wf(p, n);
    }
}

/// Whether a choice between two effects exists does not depend on their order, and
/// neither do the slots it pops and pushes.
pub proof fn parallel_is_commutative(l: ArityModel, r: ArityModel)
    requires
        l.wf(),
        r.wf(),
        l.pops.len() <= usize::MAX,
        r.pops.len() <= usize::MAX,
    ensures
        parallel_of(l, r) is Err ==> parallel_of(r, l) == parallel_of(l, r),
        parallel_of(l, r) is Ok ==> parallel_of(r, l) is Ok && parallel_of(r, l)->Ok_0.pops
            == parallel_of(l, r)->Ok_0.pops && parallel_of(r, l)->Ok_0.pushes == parallel_of(
            l,
            r,
        )->Ok_0.pushes,
        parallel_of(l, r) is Ok && l.captures.len() == 0 && r.captures.len() == 0 ==> parallel_of(
            r,
            l,
        ) == parallel_of(l, r),
{
    let n = longer(l.pops.len(), r.pops.len());
    assert(n == longer(r.pops.len(), l.pops.len()));
    let lp = l.padded_to(n);
    let rp = r.padded_to(n);
    padded_to_keeps_wf(l, n);
    padded_to_keeps_wf(r, n);
    assert(meets_all(lp.pops, rp.pops) == meets_all(rp.pops, lp.pops)) by {
        if meets_all(lp.pops, rp.pops) {
            assert forall|i: int| 0 <= i < rp.pops.len() && i < lp.pops.len() implies (
            #[trigger] meet(rp.pops[i], lp.pops[i])) is Some by {
                assert(meet(lp.pops[i], rp.pops[i]) is Some);
            }
        }
        if meets_all(rp.pops, lp.pops) {
            assert forall|i: int| 0 <= i < lp.pops.len() && i < rp.pops.len() implies (
            #[trigger] meet(lp.pops[i], rp.pops[i])) is Some by {
                assert(meet(rp.pops[i], lp.pops[i]) is Some);
            }
        }
    }
    if parallel_of(l, r) is Ok {
        let a = parallel_of(l, r)->Ok_0;
        let b = parallel_of(r, l)->Ok_0;
        assert(a.pops =~= b.pops);
        assert forall|i: int| 0 <= i < a.pushes.len() implies a.pushes[i] == b.pushes[i] by {
            assert(lp.pushes[i].wf(n as int));
            assert(rp.pushes[i].wf(n as int));
            resultant_join_laws(resolved(lp.pushes[i], a.pops), resolved(rp.pushes[i], a.pops), n as int);
        }
        assert(a.pushes =~= b.pushes);
        if l.captures.len() == 0 && r.captures.len() == 0 {
            assert(a.captures =~= Seq::<Effect>::empty());
            assert(b.captures =~= Seq::<Effect>::empty());
        }
    }
}

/// For a block that pops nothing: choosing between the block followed by nothing and
/// the block itself gives the block's effect.
pub proof fn parallel_with_trailing_noop(a: ArityModel)
    requires
        a.wf(),
        a.normal(),
        distinct_names(a.captures),
        a.pops.len() == 0,
    ensures
        serial_of(a, ArityModel::noop()) is Ok,
        parallel_of(serial_of(a, ArityModel::noop())->Ok_0, a) == Ok::<
            ArityModel,
            ArityCombineError,
        >(a),
{
    serial_noop_right(a);
    parallel_is_idempotent(a);
}

/// Looking a name up among effects that were changed one by one, names kept, finds the
/// changed form of what the name stood for.
proof fn find_in_changed(list: Seq<Effect>, changed: Seq<Effect>, name: Seq<char>, from: int)
    requires
        changed.len() == list.len(),
        forall|i: int| 0 <= i < list.len() ==> (#[trigger] changed[i]).name == list[i].name,
        0 <= from,
    ensures
        lookup(changed, name, from) == lookup(list, name, from),
    decreases list.len() - from,
{
    if from < list.len() && list[from].name != name {
        find_in_changed(list, changed, name, from + 1);
    }
}

/// Looking a name up in two lists, one behind the other, looks in the first one first.
proof fn find_in_both(a: Seq<Effect>, b: Seq<Effect>, name: Seq<char>, from: int)
    requires
        0 <= from <= a.len(),
    ensures
        lookup(a + b, name, from) == match lookup(a, name, from) {
            Some(i) => Some(i),
            None => match lookup(b, name, 0) {
                Some(j) => Some(a.len() + j),
                None => None,
            },
        },
    decreases a.len() - from,
{
    let both = a + b;
    if from < a.len() {
        assert(both[from] == a[from]);
        if a[from].name != name {
            find_in_both(a, b, name, from + 1);
        }
    } else {
        find_behind(a, b, name, 0);
    }
}

/// Looking a name up behind the first of two lists looks it up in the second.
proof fn find_behind(a: Seq<Effect>, b: Seq<Effect>, name: Seq<char>, k: int)
    requires
        0 <= k <= b.len(),
    ensures
        lookup(a + b, name, a.len() + k) == match lookup(b, name, k) {
            Some(j) => Some(a.len() + j),
            None => None,
        },
    decreases b.len() - k,
{
    let both = a + b;
    if k < b.len() {
        assert(both[a.len() + k] == b[k]);
        if b[k].name != name {
            find_behind(a, b, name, k + 1);
        }
    }
}

/// What a name stands for in two lists, one behind the other, is what it stands for
/// in the first, or else in the second.
proof fn find_of_both(a: Seq<Effect>, b: Seq<Effect>, name: Seq<char>)
    ensures
        find(a + b, name) == match find(a, name) {
            Some(e) => Some(e),
            None => find(b, name),
        },
{
    find_in_both(a, b, name, 0);
    crate::lang::arity_combine::found_is_a_member(a, name, 0);
    crate::lang::arity_combine::found_is_a_member(b, name, 0);
    let both = a + b;
    match lookup(a, name, 0) {
        Some(i) => {
            assert(both[i] == a[i]);
        },
        None => match lookup(b, name, 0) {
            Some(j) => {
                assert(both[a.len() + j] == b[j]);
            },
            None => {},
        },
    }
}

/// What a name stands for in a list of one effect.
proof fn find_of_one(e: Effect, name: Seq<char>)
    ensures
        find(seq![e], name) == if e.name == name {
            Some(e)
        } else {
            None
        },
{
    reveal_with_fuel(lookup, 3);
    assert(seq![e][0] == e);
}

/// Among the effects of a list whose names another list does not hold, a name that the
/// other list holds is not found, and any other name stands for what it stands for in
/// the list.
proof fn find_in_fresh(list: Seq<Effect>, known: Seq<Effect>, name: Seq<char>, k: nat)
    requires
        k <= list.len(),
    ensures
        find(fresh(list, known, k), name) == if find(known, name) is Some {
            None
        } else {
            find(list.take(k as int), name)
        },
    decreases k,
{
    let taken = list.take(k as int);
    if k == 0 {
        assert(fresh(list, known, 0) =~= Seq::<Effect>::empty());
        assert(taken =~= Seq::<Effect>::empty());
    } else {
        find_in_fresh(list, known, name, (k - 1) as nat);
        let before = fresh(list, known, (k - 1) as nat);
        let shorter = list.take(k - 1);
        let e = list[k - 1];
        assert(taken =~= shorter + seq![e]);
        find_of_both(shorter, seq![e], name);
        find_of_one(e, name);
        if find(known, e.name) is None {
            assert(fresh(list, known, k) == before.push(e));
            assert(before.push(e) =~= before + seq![e]);
            find_of_both(before, seq![e], name);
        } else {
            assert(fresh(list, known, k) == before);
        }
    }
}

/// What a name stands for among the capture effects of a choice between two blocks.
pub proof fn find_in_either(left: Seq<Effect>, right: Seq<Effect>, name: Seq<char>)
    ensures
        find(either(left, right), name) == match (find(left, name), find(right, name)) {
            (Some(l), r) => Some(either_one(l, r)),
            (None, Some(r)) => Some(weakened(r)),
            (None, None) => None,
        },
{
    let first = left.map_values(|e: Effect| either_one(e, find(right, e.name)));
    let rest = fresh(right, left, right.len());
    let second = rest.map_values(|e: Effect| weakened(e));
    find_in_changed(left, first, name, 0);
    find_in_changed(rest, second, name, 0);
    find_of_both(first, second, name);
    find_in_fresh(right, left, name, right.len());
    assert(right.take(right.len() as int) =~= right);
    crate::lang::arity_combine::found_is_a_member(left, name, 0);
    crate::lang::arity_combine::found_is_a_member(rest, name, 0);
    match lookup(left, name, 0) {
        Some(i) => {
            assert(first[i] == either_one(left[i], find(right, left[i].name)));
        },
        None => match lookup(rest, name, 0) {
            Some(j) => {
                assert(second[j] == weakened(rest[j]));
            },
            None => {},
        },
    }
}

/// The choice between two effects does not depend on their order in what it does to
/// any capture variable.
pub proof fn parallel_is_commutative_on_captures(l: ArityModel, r: ArityModel, name: Seq<char>)
    requires
        l.wf(),
        r.wf(),
        l.pops.len() <= usize::MAX,
        r.pops.len() <= usize::MAX,
        parallel_of(l, r) is Ok,
    ensures
        parallel_of(r, l) is Ok,
        find(parallel_of(l, r)->Ok_0.captures, name) == find(
            parallel_of(r, l)->Ok_0.captures,
            name,
        ),
{
    parallel_is_commutative(l, r);
    let n = longer(l.pops.len(), r.pops.len());
    assert(n == longer(r.pops.len(), l.pops.len()));
    padded_to_keeps_wf(l, n);
    padded_to_keeps_wf(r, n);
    let pops = parallel_of(l, r)->Ok_0.pops;
    assert(pops == parallel_of(r, l)->Ok_0.pops);
    let lc = l.captures.map_values(|e: Effect| effect_resolved(e, pops));
    let rc = r.captures.map_values(|e: Effect| effect_resolved(e, pops));
    assert(l.padded_to(n).captures == l.captures);
    assert(r.padded_to(n).captures == r.captures);
    find_in_either(lc, rc, name);
    find_in_either(rc, lc, name);
    crate::lang::arity_combine::found_is_a_member(lc, name, 0);
    crate::lang::arity_combine::found_is_a_member(rc, name, 0);
    match (find(lc, name), find(rc, name)) {
        (Some(a), Some(b)) => {
            let i = lookup(lc, name, 0)->0;
            let j = lookup(rc, name, 0)->0;
            assert(lc[i] == effect_resolved(l.captures[i], pops));
            assert(rc[j] == effect_resolved(r.captures[j], pops));
            match (a.defines, b.defines) {
                (Some((x, _)), Some((y, _))) => {
                    let lx = l.captures[i].defines->Some_0.0;
                    let ry = r.captures[j].defines->Some_0.0;
                    assert(lx.wf(n as int));
                    assert(ry.wf(n as int));
                    resolved_keeps_wf(lx, pops, n as int);
                    resolved_keeps_wf(ry, pops, n as int);
                    resultant_join_laws(x, y, n as int);
                },
                _ => {},
            }
        },
        _ => {},
    }
}

/// Reading a pushed type against the popped types keeps it well-formed.
proof fn resolved_keeps_wf(x: Resultant, pops: Seq<Type>, n: int)
    requires
        x.wf(n),
    ensures
        resolved(x, pops).wf(n),
{
}

} // verus!
