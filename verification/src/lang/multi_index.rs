//! A sorted, duplicate-free, never empty set of stack positions.
use vstd::prelude::*;

verus! {

/// A non-empty set of pop positions, kept as a strictly increasing linked list.
#[derive(Debug, PartialEq)]
pub struct MultiIndex {
    pub el: usize,
    pub next: Option<Box<MultiIndex>>,
}

impl MultiIndex {
    /// Membership.
    pub open spec fn has(self, i: usize) -> bool
        decreases self,
    {
        self.el == i || match self.next {
            Some(n) => n.has(i),
            None => false,
        }
    }

    /// The members in list order.
    pub open spec fn indices(self) -> Seq<usize>
        decreases self,
    {
        match self.next {
            Some(n) => seq![self.el] + n.indices(),
            None => seq![self.el],
        }
    }

    /// The list is strictly increasing.
    pub open spec fn sorted(self) -> bool
        decreases self,
    {
        match self.next {
            Some(n) => self.el < n.el && n.sorted(),
            None => true,
        }
    }

    /// Every member is below `bound`.
    pub open spec fn below(self, bound: int) -> bool
        decreases self,
    {
        self.el < bound && match self.next {
            Some(n) => n.below(bound),
            None => true,
        }
    }

    /// The set with one more member, in sorted position.
    pub open spec fn with(self, i: usize) -> MultiIndex
        decreases self,
    {
        if i < self.el {
            MultiIndex { el: i, next: Some(Box::new(self)) }
        } else if i == self.el {
            self
        } else {
            match self.next {
                Some(n) => MultiIndex { el: self.el, next: Some(Box::new(n.with(i))) },
                None => MultiIndex {
                    el: self.el,
                    next: Some(Box::new(MultiIndex { el: i, next: None })),
                },
            }
        }
    }

    /// The union of two sets.
    pub open spec fn merged(self, other: MultiIndex) -> MultiIndex
        decreases other,
    {
        match other.next {
            Some(n) => self.with(other.el).merged(*n),
            None => self.with(other.el),
        }
    }

    /// The set that holds one position.
    pub open spec fn unit(i: usize) -> MultiIndex {
        MultiIndex { el: i, next: None }
    }

    /// The set that holds one position.
    pub fn single(i: usize) -> (r: MultiIndex)
        ensures
            r == MultiIndex::unit(i),
            r.sorted(),
    {
        MultiIndex { el: i, next: None }
    }

    /// The set of two positions, whatever their order.
    pub fn pair(a: usize, b: usize) -> (r: MultiIndex)
        ensures
            r == MultiIndex::unit(a).with(b),
            r.sorted(),
    {
        proof {
            reveal_with_fuel(MultiIndex::sorted, 3);
        }
        if b < a {
            MultiIndex { el: b, next: Some(Box::new(MultiIndex { el: a, next: None })) }
        } else if a == b {
            MultiIndex { el: a, next: None }
        } else {
            MultiIndex { el: a, next: Some(Box::new(MultiIndex { el: b, next: None })) }
        }
    }

    /// Whether `i` is a member.
    pub fn contains(&self, i: usize) -> (r: bool)
        ensures
            r == self.has(i),
        decreases self,
    {
        if self.el == i {
            true
        } else {
            match &self.next {
                Some(n) => n.contains(i),
                None => false,
            }
        }
    }

    /// A copy.
    pub fn duplicate(&self) -> (r: MultiIndex)
        ensures
            r == *self,
        decreases self,
    {
        match &self.next {
            Some(n) => MultiIndex { el: self.el, next: Some(Box::new(n.duplicate())) },
            None => MultiIndex { el: self.el, next: None },
        }
    }

    /// The set with `i` added.
    pub fn including(self, i: usize) -> (r: MultiIndex)
        ensures
            r == self.with(i),
        decreases self,
    {
        if i < self.el {
            MultiIndex { el: i, next: Some(Box::new(self)) }
        } else if i == self.el {
            self
        } else {
            let MultiIndex { el, next } = self;
            match next {
                Some(n) => {
                    let rest = (*n).including(i);
                    MultiIndex { el, next: Some(Box::new(rest)) }
                },
                None => MultiIndex { el, next: Some(Box::new(MultiIndex { el: i, next: None })) },
            }
        }
    }

    /// Adds `i` to the set.
    pub fn insert(&mut self, i: usize)
        ensures
            *final(self) == old(self).with(i),
    {
        let mut taken = MultiIndex { el: 0, next: None };
        core::mem::swap(self, &mut taken);
        *self = taken.including(i);
    }

    /// The union with `other`.
    pub fn union(&self, other: &MultiIndex) -> (r: MultiIndex)
        ensures
            r == self.merged(*other),
    {
        let mut acc = self.duplicate().including(other.el);
        let mut cur = &other.next;
        proof {
            reveal_with_fuel(MultiIndex::merged, 2);
        }
        loop
            invariant
                match *cur {
                    Some(n) => self.merged(*other) == acc.merged(*n),
                    None => self.merged(*other) == acc,
                },
            ensures
                self.merged(*other) == acc,
            decreases *cur,
        {
            match cur {
                Some(n) => {
                    acc = acc.including(n.el);
                    cur = &n.next;
                },
                None => {
                    break ;
                },
            }
        }
        acc
    }

    /// The members in increasing order.
    pub fn iter(&self) -> (r: Vec<usize>)
        ensures
            r@ == self.indices(),
    {
        let mut out: Vec<usize> = Vec::new();
        out.push(self.el);
        let mut cur = &self.next;
        loop
            invariant
                match *cur {
                    Some(n) => self.indices() == out@ + n.indices(),
                    None => self.indices() == out@,
                },
            ensures
                self.indices() == out@,
            decreases *cur,
        {
            match cur {
                Some(n) => {
                    let ghost before = out@;
                    out.push(n.el);
                    proof {
                        if n.next is Some {
                            assert(before + n.indices() =~= out@ + n.next->0.indices());
                        } else {
                            assert(before + n.indices() =~= out@);
                        }
                    }
                    cur = &n.next;
                },
                None => {
                    break ;
                },
            }
        }
        out
    }

    /// The members after the first, in increasing order.
    pub fn iter_rest(&self) -> (r: Vec<usize>)
        ensures
            r@ == self.indices().drop_first(),
    {
        match &self.next {
            Some(n) => {
                let r = n.iter();
                assert(self.indices().drop_first() =~= n.indices());
                r
            },
            None => {
                let r: Vec<usize> = Vec::new();
                assert(self.indices().drop_first() =~= Seq::<usize>::empty());
                r
            },
        }
    }
}

/// A cursor over the members of a set, smallest first.
pub struct MultiIndexIter {
    items: Vec<usize>,
    at: usize,
}

impl MultiIndexIter {
    /// What is still to come.
    pub closed spec fn remaining(self) -> Seq<usize> {
        if self.at <= self.items@.len() {
            self.items@.subrange(self.at as int, self.items@.len() as int)
        } else {
            Seq::empty()
        }
    }

    /// A cursor at the start of the set, or over nothing.
    pub fn new(target: Option<&MultiIndex>) -> (r: MultiIndexIter)
        ensures
            r.remaining() == match target {
                Some(m) => m.indices(),
                None => Seq::<usize>::empty(),
            },
    {
        match target {
            Some(m) => {
                let items = m.iter();
                assert(items@.subrange(0, items@.len() as int) =~= items@);
                MultiIndexIter { items, at: 0 }
            },
            None => {
                let items: Vec<usize> = Vec::new();
                assert(items@.subrange(0, 0) =~= Seq::<usize>::empty());
                MultiIndexIter { items, at: 0 }
            },
        }
    }

    /// Hands out the next member, if any is left.
    pub fn next(&mut self) -> (r: Option<usize>)
        ensures
            old(self).remaining().len() == 0 ==> r is None && final(self).remaining()
                == old(self).remaining(),
            old(self).remaining().len() > 0 ==> r == Some(old(self).remaining()[0])
                && final(self).remaining() == old(self).remaining().drop_first(),
    {
        if self.at < self.items.len() {
            let v = self.items[self.at];
            self.at = self.at + 1;
            assert(self.remaining() =~= old(self).remaining().drop_first());
            Some(v)
        } else {
            None
        }
    }
}

/// Adding a member keeps the list sorted, and tells which positions are members afterwards.
pub proof fn with_adds_one_member(m: MultiIndex, i: usize, j: usize)
    requires
        m.sorted(),
    ensures
        m.with(i).sorted(),
        m.with(i).has(j) == (m.has(j) || j == i),
        m.with(i).el == if i < m.el { i } else { m.el },
    decreases m,
{
    reveal_with_fuel(MultiIndex::sorted, 3);
    reveal_with_fuel(MultiIndex::has, 3);
    let r = m.with(i);
    if i < m.el {
        assert(r.next == Some(Box::new(m)));
    } else if i == m.el {
    } else {
        match m.next {
            Some(n) => {
                with_adds_one_member(*n, i, j);
                assert(r.next == Some(Box::new(n.with(i))));
                assert(r.el == m.el);
            },
            None => {
                assert(r.next == Some(Box::new(MultiIndex { el: i, next: None })));
            },
        }
    }
}

/// A union is sorted and holds exactly the members of both sides.
pub proof fn merged_is_the_union(a: MultiIndex, b: MultiIndex, j: usize)
    requires
        a.sorted(),
        b.sorted(),
    ensures
        a.merged(b).sorted(),
        a.merged(b).has(j) == (a.has(j) || b.has(j)),
    decreases b,
{
    with_adds_one_member(a, b.el, j);
    match b.next {
        Some(n) => {
            merged_is_the_union(a.with(b.el), *n, j);
        },
        None => {},
    }
}

/// In a sorted list no member is smaller than the first.
pub proof fn sorted_members_are_at_least_first(m: MultiIndex, j: usize)
    requires
        m.sorted(),
        m.has(j),
    ensures
        m.el <= j,
    decreases m,
{
    if m.el != j {
        match m.next {
            Some(n) => {
                sorted_members_are_at_least_first(*n, j);
            },
            None => {},
        }
    }
}

/// Two sorted lists with the same members are the same list.
pub proof fn sorted_lists_are_canonical(a: MultiIndex, b: MultiIndex)
    requires
        a.sorted(),
        b.sorted(),
        forall|j: usize| #[trigger] a.has(j) == b.has(j),
    ensures
        a == b,
    decreases a,
{
    assert(a.has(a.el));
    assert(b.has(b.el));
    assert(b.has(a.el));
    assert(a.has(b.el));
    sorted_members_are_at_least_first(a, b.el);
    sorted_members_are_at_least_first(b, a.el);
    assert(a.el == b.el);
    match (a.next, b.next) {
        (Some(x), Some(y)) => {
            assert forall|j: usize| #[trigger] x.has(j) == y.has(j) by {
                assert(a.has(j) == b.has(j));
                if x.has(j) {
                    sorted_members_are_at_least_first(*x, j);
                }
                if y.has(j) {
                    sorted_members_are_at_least_first(*y, j);
                }
            }
            sorted_lists_are_canonical(*x, *y);
        },
        (Some(x), None) => {
            assert(x.has(x.el));
            assert(a.has(x.el));
            assert(b.has(x.el));
        },
        (None, Some(y)) => {
            assert(y.has(y.el));
            assert(b.has(y.el));
            assert(a.has(y.el));
        },
        (None, None) => {},
    }
}

/// Union of sorted sets is idempotent, commutative and associative.
pub proof fn merged_is_a_semilattice(a: MultiIndex, b: MultiIndex, c: MultiIndex)
    requires
        a.sorted(),
        b.sorted(),
        c.sorted(),
    ensures
        a.merged(a) == a,
        a.merged(b) == b.merged(a),
        a.merged(b).merged(c) == a.merged(b.merged(c)),
        a.merged(b).sorted(),
{
    merged_is_the_union(a, a, 0);
    merged_is_the_union(a, b, 0);
    merged_is_the_union(b, a, 0);
    merged_is_the_union(b, c, 0);
    merged_is_the_union(a.merged(b), c, 0);
    merged_is_the_union(a, b.merged(c), 0);
    assert forall|j: usize| #[trigger] a.merged(a).has(j) == a.has(j) by {
        merged_is_the_union(a, a, j);
    }
    sorted_lists_are_canonical(a.merged(a), a);
    assert forall|j: usize| #[trigger] a.merged(b).has(j) == b.merged(a).has(j) by {
        merged_is_the_union(a, b, j);
        merged_is_the_union(b, a, j);
    }
    sorted_lists_are_canonical(a.merged(b), b.merged(a));
    assert forall|j: usize| #[trigger]
        a.merged(b).merged(c).has(j) == a.merged(b.merged(c)).has(j) by {
        merged_is_the_union(a, b, j);
        merged_is_the_union(b, c, j);
        merged_is_the_union(a.merged(b), c, j);
        merged_is_the_union(a, b.merged(c), j);
    }
    sorted_lists_are_canonical(a.merged(b).merged(c), a.merged(b.merged(c)));
}

/// The members of a set are below a bound exactly when each of them is.
pub proof fn below_means_every_member(m: MultiIndex, bound: int)
    ensures
        m.below(bound) <==> forall|j: usize| #[trigger] m.has(j) ==> j < bound,
    decreases m,
{
    assert(m.has(m.el));
    match m.next {
        Some(n) => {
            below_means_every_member(*n, bound);
            if m.below(bound) {
                assert forall|j: usize| #[trigger] m.has(j) implies j < bound by {
                    if j != m.el {
                        assert(n.has(j));
                    }
                }
            }
            if forall|j: usize| #[trigger] m.has(j) ==> j < bound {
                assert forall|j: usize| #[trigger] n.has(j) implies j < bound by {
                    assert(m.has(j));
                }
            }
        },
        None => {},
    }
}

} // verus!
