//! Ready-made stack effects, and the compact text form of a stack effect.
use vstd::prelude::*;
use crate::lang::arity::{
    effect_of, effects, resultants, Arity, ArityModel, Certainty, Effect, Resultant,
    ResultantType, VariableEffect,
};
use crate::lang::multi_index::MultiIndex;
use crate::lang::types::{type_code, Type};
use crate::text::{chars_of, decimal, decimal_chars, push_all, string_of};

verus! {

/// `n` slots of unknown type.
pub open spec fn unknowns(n: nat) -> Seq<Type> {
    Seq::new(n, |i: int| Type::Unknown)
}

/// The effect that pops these types, topmost first, and pushes these.
pub open spec fn plain(pops: Seq<Type>, pushes: Seq<Resultant>) -> ArityModel {
    ArityModel { pops, pushes, captures: Seq::empty() }
}

/// The text of a set of positions: the numerals joined by `|`.
pub open spec fn indices_text(m: MultiIndex) -> Seq<char>
    decreases m,
{
    match m.next {
        Some(n) => decimal(m.el as nat) + seq!['|'] + indices_text(*n),
        None => decimal(m.el as nat),
    }
}

/// The text of a pushed type.
pub open spec fn resultant_text(r: Resultant) -> Seq<char> {
    match r {
        Resultant::Normal(t) => seq![type_code(t)],
        Resultant::Dependent(m) => indices_text(m),
        Resultant::Recall(n) => n,
    }
}

/// One of the first `k` pushed types depends on slot `i`.
pub open spec fn pushes_mention(pushes: Seq<Resultant>, i: usize, k: nat) -> bool
    decreases k,
{
    k > 0 && (pushes[k - 1].references(i) || pushes_mention(pushes, i, (k - 1) as nat))
}

/// One of the first `k` capture effects defines a type that depends on slot `i`.
pub open spec fn captures_mention(list: Seq<Effect>, i: usize, k: nat) -> bool
    decreases k,
{
    k > 0 && ((match list[k - 1].defines {
        Some((r, _)) => r.references(i),
        None => false,
    }) || captures_mention(list, i, (k - 1) as nat))
}

/// The text of popped slot `i`: its position when it is of unknown type and some
/// pushed or defined type depends on it, else its type letter.
pub open spec fn pop_text(a: ArityModel, i: int) -> Seq<char> {
    if a.pops[i] == Type::Unknown && (pushes_mention(a.pushes, i as usize, a.pushes.len())
        || captures_mention(a.captures, i as usize, a.captures.len())) {
        decimal(i as nat)
    } else {
        seq![type_code(a.pops[i])]
    }
}

/// The text of the `k` topmost popped slots, deepest first, each followed by a space.
pub open spec fn pops_text(a: ArityModel, k: nat) -> Seq<char>
    decreases k,
{
    if k == 0 {
        Seq::empty()
    } else {
        pop_text(a, k - 1) + seq![' '] + pops_text(a, (k - 1) as nat)
    }
}

/// The text of the first `k` pushed slots, each preceded by a space.
pub open spec fn pushes_text(pushes: Seq<Resultant>, k: nat) -> Seq<char>
    decreases k,
{
    if k == 0 {
        Seq::empty()
    } else {
        pushes_text(pushes, (k - 1) as nat) + seq![' '] + resultant_text(pushes[k - 1])
    }
}

/// The text of one capture effect: `>` when it expects the variable, the name,
/// `:` and the type when it defines it, `?` when it does so only sometimes.
pub open spec fn effect_text(e: Effect) -> Seq<char> {
    (if e.expects {
        seq!['>']
    } else {
        Seq::empty()
    }) + e.name + match e.defines {
        Some((r, c)) => seq![':'] + resultant_text(r) + if c == Certainty::Sometimes {
            seq!['?']
        } else {
            Seq::empty()
        },
        None => Seq::empty(),
    }
}

/// The text of the first `k` capture effects: a comma before the first, spaces between.
pub open spec fn captures_text(list: Seq<Effect>, k: nat) -> Seq<char>
    decreases k,
{
    if k == 0 {
        Seq::empty()
    } else {
        captures_text(list, (k - 1) as nat) + (if k == 1 {
            seq![',', ' ']
        } else {
            seq![' ']
        }) + effect_text(list[k - 1])
    }
}

/// The text of a stack effect: pops, a dash, pushes, then the capture effects.
pub open spec fn arity_text(a: ArityModel) -> Seq<char> {
    pops_text(a, a.pops.len()) + seq!['-'] + pushes_text(a.pushes, a.pushes.len())
        + captures_text(a.captures, a.captures.len())
}

fn indices_chars(m: &MultiIndex) -> (r: Vec<char>)
    ensures
        r@ == indices_text(*m),
    decreases m,
{
    let mut out = decimal_chars(m.el);
    match &m.next {
        Some(n) => {
            out.push('|');
            let rest = indices_chars(n);
            push_all(&mut out, &rest);
        },
        None => {},
    }
    out
}

fn resultant_chars(r: &ResultantType) -> (out: Vec<char>)
    ensures
        out@ == resultant_text(r@),
{
    match r {
        ResultantType::Normal(t) => {
            let mut out: Vec<char> = Vec::new();
            out.push(t.code());
            assert(out@ =~= seq![type_code(*t)]);
            out
        },
        ResultantType::Dependent(m) => indices_chars(m),
        ResultantType::Recall(n) => chars_of(n.as_str()),
    }
}

fn mentioned(pushes: &Vec<ResultantType>, i: usize) -> (r: bool)
    ensures
        r == pushes_mention(resultants(pushes@), i, pushes.len() as nat),
{
    let mut k: usize = 0;
    let mut seen = false;
    while k < pushes.len()
        invariant
            k <= pushes.len(),
            seen == pushes_mention(resultants(pushes@), i, k as nat),
        decreases pushes.len() - k,
    {
        assert(resultants(pushes@)[k as int] == pushes@[k as int]@);
        if pushes[k].references(i) {
            seen = true;
        }
        k += 1;
    }
    seen
}

fn defined(list: &Vec<(String, VariableEffect)>, i: usize) -> (r: bool)
    ensures
        r == captures_mention(effects(list@), i, list.len() as nat),
{
    let mut k: usize = 0;
    let mut seen = false;
    while k < list.len()
        invariant
            k <= list.len(),
            seen == captures_mention(effects(list@), i, k as nat),
        decreases list.len() - k,
    {
        assert(effects(list@)[k as int] == effect_of(list@[k as int]));
        let hit = match &list[k].1.defines {
            Some((r, _)) => r.references(i),
            None => false,
        };
        if hit {
            seen = true;
        }
        k += 1;
    }
    seen
}

fn effect_chars(c: &(String, VariableEffect)) -> (out: Vec<char>)
    ensures
        out@ == effect_text(effect_of(*c)),
{
    let mut out: Vec<char> = Vec::new();
    if c.1.expects {
        out.push('>');
    }
    let name = chars_of(c.0.as_str());
    push_all(&mut out, &name);
    match &c.1.defines {
        Some((r, certainty)) => {
            out.push(':');
            let t = resultant_chars(r);
            push_all(&mut out, &t);
            if *certainty == Certainty::Sometimes {
                out.push('?');
            }
        },
        None => {},
    }
    assert(out@ =~= effect_text(effect_of(*c)));
    out
}

impl ResultantType {
    /// The text of the pushed type.
    pub fn stringify(&self) -> (r: String)
        ensures
            r@ == resultant_text(self@),
    {
        let chars = resultant_chars(self);
        string_of(&chars)
    }
}

impl Arity {
    /// The effect that pops `pops`, topmost first, and pushes `pushes`, lowest first.
    pub fn from_parts(pops: Vec<Type>, pushes: Vec<ResultantType>) -> (r: Arity)
        ensures
            r@ == plain(pops@, resultants(pushes@)),
    {
        let r = Arity { pops, pushes, captures: Vec::new() };
        assert(r@.captures =~= Seq::empty());
        r
    }

    /// The effect of pushing one slot of type `r`.
    pub fn literal(r: Type) -> (a: Arity)
        ensures
            a@ == plain(Seq::empty(), seq![Resultant::Normal(r)]),
            a@.wf(),
    {
        let mut pushes: Vec<ResultantType> = Vec::new();
        pushes.push(ResultantType::Normal(r));
        let a = Arity { pops: Vec::new(), pushes, captures: Vec::new() };
        assert(a@.pops =~= Seq::empty());
        assert(a@.pushes =~= seq![Resultant::Normal(r)]);
        assert(a@.captures =~= Seq::empty());
        a
    }

    /// Pops `a` and pushes `r`.
    pub fn unary(a: Type, r: Type) -> (x: Arity)
        ensures
            x@ == plain(seq![a], seq![Resultant::Normal(r)]),
            x@.wf(),
    {
        let mut pops: Vec<Type> = Vec::new();
        pops.push(a);
        let mut pushes: Vec<ResultantType> = Vec::new();
        pushes.push(ResultantType::Normal(r));
        let x = Arity { pops, pushes, captures: Vec::new() };
        assert(x@.pops =~= seq![a]);
        assert(x@.pushes =~= seq![Resultant::Normal(r)]);
        assert(x@.captures =~= Seq::empty());
        x
    }

    /// Pushes `a` and then `b`.
    pub fn push_two(a: Type, b: Type) -> (x: Arity)
        ensures
            x@ == plain(Seq::empty(), seq![Resultant::Normal(a), Resultant::Normal(b)]),
            x@.wf(),
    {
        let mut pushes: Vec<ResultantType> = Vec::new();
        pushes.push(ResultantType::Normal(a));
        pushes.push(ResultantType::Normal(b));
        let x = Arity { pops: Vec::new(), pushes, captures: Vec::new() };
        assert(x@.pops =~= Seq::empty());
        assert(x@.pushes =~= seq![Resultant::Normal(a), Resultant::Normal(b)]);
        assert(x@.captures =~= Seq::empty());
        x
    }

    /// Pops `a` from the top, then `b`, and pushes `r`.
    pub fn binary(a: Type, b: Type, r: Type) -> (x: Arity)
        ensures
            x@ == plain(seq![a, b], seq![Resultant::Normal(r)]),
            x@.wf(),
    {
        let mut pops: Vec<Type> = Vec::new();
        pops.push(a);
        pops.push(b);
        let mut pushes: Vec<ResultantType> = Vec::new();
        pushes.push(ResultantType::Normal(r));
        let x = Arity { pops, pushes, captures: Vec::new() };
        assert(x@.pops =~= seq![a, b]);
        assert(x@.pushes =~= seq![Resultant::Normal(r)]);
        assert(x@.captures =~= Seq::empty());
        x
    }

    /// Pops `a` from the top, then `b`, then `c`, and pushes `r`.
    pub fn ternary(a: Type, b: Type, c: Type, r: Type) -> (x: Arity)
        ensures
            x@ == plain(seq![a, b, c], seq![Resultant::Normal(r)]),
            x@.wf(),
    {
        let mut pops: Vec<Type> = Vec::new();
        pops.push(a);
        pops.push(b);
        pops.push(c);
        let mut pushes: Vec<ResultantType> = Vec::new();
        pushes.push(ResultantType::Normal(r));
        let x = Arity { pops, pushes, captures: Vec::new() };
        assert(x@.pops =~= seq![a, b, c]);
        assert(x@.pushes =~= seq![Resultant::Normal(r)]);
        assert(x@.captures =~= Seq::empty());
        x
    }

    fn unknown_pops(pop_count: usize) -> (pops: Vec<Type>)
        ensures
            pops@ == unknowns(pop_count as nat),
    {
        let mut pops: Vec<Type> = Vec::new();
        let mut i: usize = 0;
        while i < pop_count
            invariant
                i <= pop_count,
                pops.len() == i,
                forall|k: int| 0 <= k < i ==> pops@[k] == Type::Unknown,
            decreases pop_count - i,
        {
            pops.push(Type::Unknown);
            i += 1;
        }
        assert(pops@ =~= unknowns(pop_count as nat));
        pops
    }

    /// Pops and pushes the given numbers of slots of unknown type.
    pub fn in_out(pop_count: usize, push_count: usize) -> (x: Arity)
        ensures
            x@ == plain(
                unknowns(pop_count as nat),
                Seq::new(push_count as nat, |i: int| Resultant::Normal(Type::Unknown)),
            ),
            x@.wf(),
    {
        let pops = Arity::unknown_pops(pop_count);
        let mut pushes: Vec<ResultantType> = Vec::new();
        let mut i: usize = 0;
        while i < push_count
            invariant
                i <= push_count,
                pushes.len() == i,
                forall|k: int| 0 <= k < i ==> pushes@[k]@ == Resultant::Normal(Type::Unknown),
            decreases push_count - i,
        {
            pushes.push(ResultantType::Normal(Type::Unknown));
            i += 1;
        }
        let x = Arity { pops, pushes, captures: Vec::new() };
        assert(x@.pushes =~= Seq::new(
            push_count as nat,
            |i: int| Resultant::Normal(Type::Unknown),
        ));
        assert(x@.captures =~= Seq::empty());
        x
    }

    /// Pops `pop_count` unknown slots and pushes one that depends on `res1`.
    pub fn generic_1(pop_count: usize, res1: MultiIndex) -> (x: Arity)
        ensures
            x@ == plain(unknowns(pop_count as nat), seq![Resultant::Dependent(res1)]),
            res1.sorted() && res1.below(pop_count as int) ==> x@.wf(),
    {
        let pops = Arity::unknown_pops(pop_count);
        let mut pushes: Vec<ResultantType> = Vec::new();
        pushes.push(ResultantType::Dependent(res1));
        let x = Arity { pops, pushes, captures: Vec::new() };
        assert(x@.pushes =~= seq![Resultant::Dependent(res1)]);
        assert(x@.captures =~= Seq::empty());
        x
    }

    /// Pops `pop_count` unknown slots and pushes two that depend on `res1` and `res2`.
    pub fn generic_2(pop_count: usize, res1: MultiIndex, res2: MultiIndex) -> (x: Arity)
        ensures
            x@ == plain(
                unknowns(pop_count as nat),
                seq![Resultant::Dependent(res1), Resultant::Dependent(res2)],
            ),
            res1.sorted() && res1.below(pop_count as int) && res2.sorted() && res2.below(
                pop_count as int,
            ) ==> x@.wf(),
    {
        let pops = Arity::unknown_pops(pop_count);
        let mut pushes: Vec<ResultantType> = Vec::new();
        pushes.push(ResultantType::Dependent(res1));
        pushes.push(ResultantType::Dependent(res2));
        let x = Arity { pops, pushes, captures: Vec::new() };
        assert(x@.pushes =~= seq![Resultant::Dependent(res1), Resultant::Dependent(res2)]);
        assert(x@.captures =~= Seq::empty());
        x
    }

    /// Pops `pop_count` unknown slots and pushes three that depend on the given slots.
    pub fn generic_3(pop_count: usize, res1: MultiIndex, res2: MultiIndex, res3: MultiIndex) -> (x:
        Arity)
        ensures
            x@ == plain(
                unknowns(pop_count as nat),
                seq![
                    Resultant::Dependent(res1),
                    Resultant::Dependent(res2),
                    Resultant::Dependent(res3),
                ],
            ),
            res1.sorted() && res1.below(pop_count as int) && res2.sorted() && res2.below(
                pop_count as int,
            ) && res3.sorted() && res3.below(pop_count as int) ==> x@.wf(),
    {
        let pops = Arity::unknown_pops(pop_count);
        let mut pushes: Vec<ResultantType> = Vec::new();
        pushes.push(ResultantType::Dependent(res1));
        pushes.push(ResultantType::Dependent(res2));
        pushes.push(ResultantType::Dependent(res3));
        let x = Arity { pops, pushes, captures: Vec::new() };
        assert(x@.pushes =~= seq![
            Resultant::Dependent(res1),
            Resultant::Dependent(res2),
            Resultant::Dependent(res3),
        ]);
        assert(x@.captures =~= Seq::empty());
        x
    }

    /// Pops two numbers and pushes one.
    pub fn number_binary() -> (x: Arity)
        ensures
            x@ == plain(seq![Type::Number, Type::Number], seq![Resultant::Normal(Type::Number)]),
            x@.wf(),
    {
        Arity::binary(Type::Number, Type::Number, Type::Number)
    }

    /// Pops a number and pushes one.
    pub fn number_unary() -> (x: Arity)
        ensures
            x@ == plain(seq![Type::Number], seq![Resultant::Normal(Type::Number)]),
            x@.wf(),
    {
        Arity::unary(Type::Number, Type::Number)
    }

    /// The effect of binding the top of the stack to capture variable `name`.
    pub fn capture(name: &str) -> (x: Arity)
        ensures
            x@ == (ArityModel {
                pops: seq![Type::Unknown],
                pushes: Seq::empty(),
                captures: seq![
                    Effect {
                        name: name@,
                        expects: false,
                        defines: Some(
                            (Resultant::Dependent(MultiIndex::unit(0)), Certainty::Always),
                        ),
                    },
                ],
            }),
            x@.wf(),
    {
        let mut pops: Vec<Type> = Vec::new();
        pops.push(Type::Unknown);
        let mut captures: Vec<(String, VariableEffect)> = Vec::new();
        captures.push(
            (
                String::from_str(name),
                VariableEffect {
                    expects: false,
                    defines: Some(
                        (ResultantType::Dependent(MultiIndex::single(0)), Certainty::Always),
                    ),
                },
            ),
        );
        let x = Arity { pops, pushes: Vec::new(), captures };
        assert(x@.pops =~= seq![Type::Unknown]);
        assert(x@.pushes =~= Seq::empty());
        assert(x@.captures =~= seq![
            Effect {
                name: name@,
                expects: false,
                defines: Some((Resultant::Dependent(MultiIndex::unit(0)), Certainty::Always)),
            },
        ]);
        x
    }

    /// The effect of reading a name that nothing binds yet: it pushes a slot of
    /// the variable's type and expects the variable.
    pub fn recall(name: &str) -> (x: Arity)
        ensures
            x@ == (ArityModel {
                pops: Seq::empty(),
                pushes: seq![Resultant::Recall(name@)],
                captures: seq![Effect { name: name@, expects: true, defines: None }],
            }),
            x@.wf(),
    {
        let mut pushes: Vec<ResultantType> = Vec::new();
        pushes.push(ResultantType::Recall(String::from_str(name)));
        let mut captures: Vec<(String, VariableEffect)> = Vec::new();
        captures.push((String::from_str(name), VariableEffect { expects: true, defines: None }));
        let x = Arity { pops: Vec::new(), pushes, captures };
        assert(x@.pops =~= Seq::empty());
        assert(x@.pushes =~= seq![Resultant::Recall(name@)]);
        assert(x@.captures =~= seq![Effect { name: name@, expects: true, defines: None }]);
        x
    }

    /// The text form of the effect.
    pub fn stringify(&self) -> (r: String)
        ensures
            r@ == arity_text(self@),
    {
        let mut out: Vec<char> = Vec::new();
        let mut i: usize = self.pops.len();
        while i > 0
            invariant
                i <= self.pops.len(),
                out@ + pops_text(self@, i as nat) == pops_text(self@, self.pops.len() as nat),
            decreases i,
        {
            i -= 1;
            let ghost before = out@;
            if self.pops[i] == Type::Unknown && (mentioned(&self.pushes, i) || defined(
                &self.captures,
                i,
            )) {
                let d = decimal_chars(i);
                push_all(&mut out, &d);
            } else {
                out.push(self.pops[i].code());
            }
            out.push(' ');
            assert(out@ =~= before + pop_text(self@, i as int) + seq![' ']);
            assert(out@ + pops_text(self@, i as nat) =~= before + pops_text(
                self@,
                (i + 1) as nat,
            ));
        }
        assert(out@ =~= pops_text(self@, self.pops.len() as nat));
        out.push('-');
        let ghost head = out@;
        let mut k: usize = 0;
        while k < self.pushes.len()
            invariant
                k <= self.pushes.len(),
                out@ == head + pushes_text(self@.pushes, k as nat),
            decreases self.pushes.len() - k,
        {
            out.push(' ');
            assert(self@.pushes[k as int] == self.pushes@[k as int]@);
            let t = resultant_chars(&self.pushes[k]);
            push_all(&mut out, &t);
            k += 1;
            assert(out@ =~= head + pushes_text(self@.pushes, k as nat));
        }
        let ghost head = out@;
        let mut k: usize = 0;
        while k < self.captures.len()
            invariant
                k <= self.captures.len(),
                out@ == head + captures_text(self@.captures, k as nat),
            decreases self.captures.len() - k,
        {
            if k == 0 {
                out.push(',');
            }
            out.push(' ');
            assert(self@.captures[k as int] == effect_of(self.captures@[k as int]));
            let t = effect_chars(&self.captures[k]);
            push_all(&mut out, &t);
            k += 1;
            assert(out@ =~= head + captures_text(self@.captures, k as nat));
        }
        string_of(&out)
    }
}

} // verus!
