//! Reading the text form of a stack effect.
use vstd::prelude::*;
use crate::lang::arity::{
    all_unknown, effect_of, effects, resultants, Arity, ArityModel, Certainty, Effect, Resultant,
    ResultantType, VariableEffect,
};
use crate::lang::multi_index::{below_means_every_member, with_adds_one_member, MultiIndex};
use crate::lang::types::{code_type, Type};
use crate::text::{chars_of, string_of};

verus! {

/// The offset of the first `c` in the text from `from` up to `to`, or `to`.
pub open spec fn first_of(text: Seq<char>, from: int, to: int, c: char) -> int
    decreases to - from,
{
    if from >= to {
        to
    } else if text[from] == c {
        from
    } else {
        first_of(text, from + 1, to, c)
    }
}

/// The words of the text from `from` up to `to`: the runs of characters between spaces.
pub open spec fn words_of(text: Seq<char>, from: int, to: int) -> Seq<Seq<char>>
    decreases to - from,
{
    if from >= to {
        Seq::empty()
    } else {
        let end = first_of(text, from, to, ' ');
        if end <= from {
            words_of(text, from + 1, to)
        } else if end < to {
            seq![text.subrange(from, end)] + words_of(text, end + 1, to)
        } else {
            seq![text.subrange(from, end)]
        }
    }
}

/// The value of a decimal digit.
pub open spec fn digit_of(c: char) -> Option<usize> {
    if c == '0' {
        Some(0)
    } else if c == '1' {
        Some(1)
    } else if c == '2' {
        Some(2)
    } else if c == '3' {
        Some(3)
    } else if c == '4' {
        Some(4)
    } else if c == '5' {
        Some(5)
    } else if c == '6' {
        Some(6)
    } else if c == '7' {
        Some(7)
    } else if c == '8' {
        Some(8)
    } else if c == '9' {
        Some(9)
    } else {
        None
    }
}

/// The number that the digits from `from` up to `to` spell, if they are digits and the
/// number fits a machine word. No digits spell zero.
pub open spec fn digits_upto(word: Seq<char>, from: int, to: int) -> Option<usize>
    decreases to - from,
{
    if to <= from {
        Some(0)
    } else {
        match (digits_upto(word, from, to - 1), digit_of(word[to - 1])) {
            (Some(v), Some(d)) => if v > (usize::MAX - d) / 10 {
                None
            } else {
                Some((v * 10 + d) as usize)
            },
            _ => None,
        }
    }
}

/// The number that a stretch of at least one digit spells.
pub open spec fn number_of(word: Seq<char>, from: int, to: int) -> Option<usize> {
    if from >= to {
        None
    } else {
        digits_upto(word, from, to)
    }
}

/// The type of a popped slot that a word stands for: a code letter for its type, or
/// a number for a slot of unknown type.
pub open spec fn pop_of(word: Seq<char>) -> Option<Type> {
    if word.len() == 1 && code_type(word[0]) is Some {
        code_type(word[0])
    } else if number_of(word, 0, word.len() as int) is Some {
        Some(Type::Unknown)
    } else {
        None
    }
}

/// A position names a popped slot of unknown type.
pub open spec fn names_unknown(v: usize, pops: Seq<Type>) -> bool {
    v < pops.len() && pops[v as int] == Type::Unknown
}

/// The set `acc` with the positions added that follow the bar at `at`, each behind a
/// bar of its own, up to `to`.
pub open spec fn more_indices(
    word: Seq<char>,
    at: int,
    to: int,
    pops: Seq<Type>,
    acc: MultiIndex,
) -> Option<MultiIndex>
    decreases to - at,
{
    if at >= to {
        Some(acc)
    } else {
        let next = first_of(word, at + 1, to, '|');
        match number_of(word, at + 1, next) {
            Some(v) => if names_unknown(v, pops) && at < next <= to {
                more_indices(word, next, to, pops, acc.with(v))
            } else {
                None
            },
            None => None,
        }
    }
}

/// The pushed type that the stretch of a word stands for: a code letter for a known
/// type; numbers with bars between them for a dependency on the popped slots at those
/// positions, which must be of unknown type; anything else that does not start with a
/// digit for the type of the capture variable of that name.
pub open spec fn resultant_of(word: Seq<char>, from: int, to: int, pops: Seq<Type>) -> Option<
    Resultant,
> {
    if from >= to {
        None
    } else if to - from == 1 && code_type(word[from]) is Some {
        Some(Resultant::Normal(code_type(word[from])->0))
    } else if digit_of(word[from]) is None {
        Some(Resultant::Recall(word.subrange(from, to)))
    } else {
        let at = first_of(word, from, to, '|');
        match number_of(word, from, at) {
            Some(v) => if names_unknown(v, pops) {
                match more_indices(word, at, to, pops, MultiIndex::unit(v)) {
                    Some(m) => Some(Resultant::Dependent(m)),
                    None => None,
                }
            } else {
                None
            },
            None => None,
        }
    }
}

/// The capture effect that a word stands for: `>` in front when the variable is
/// expected, then its name, then a colon and its type when it is defined, then `?`
/// when it is defined only sometimes.
pub open spec fn effect_of_word(word: Seq<char>, pops: Seq<Type>) -> Option<Effect> {
    if word.len() == 0 {
        None
    } else {
        let expects = word[0] == '>';
        let start: int = if expects {
            1
        } else {
            0
        };
        let colon = first_of(word, start, word.len() as int, ':');
        if colon == start {
            None
        } else if colon == word.len() {
            Some(Effect { name: word.subrange(start, colon), expects, defines: None })
        } else {
            let sometimes = word[word.len() - 1] == '?' && word.len() - 1 > colon;
            let end: int = if sometimes {
                word.len() - 1
            } else {
                word.len() as int
            };
            match resultant_of(word, colon + 1, end, pops) {
                Some(t) => Some(
                    Effect {
                        name: word.subrange(start, colon),
                        expects,
                        defines: Some(
                            (
                                t,
                                if sometimes {
                                    Certainty::Sometimes
                                } else {
                                    Certainty::Always
                                },
                            ),
                        ),
                    },
                ),
                None => None,
            }
        }
    }
}

/// The position of the first word at or after `from` that is a dash, or the number of
/// words.
pub open spec fn dash_of(words: Seq<Seq<char>>, from: int) -> int
    decreases words.len() - from,
{
    if from >= words.len() {
        words.len() as int
    } else if words[from] == seq!['-'] {
        from
    } else {
        dash_of(words, from + 1)
    }
}

/// The types of the `n` topmost popped slots: those of the `n` words right in front
/// of the dash, the nearest first.
pub open spec fn pops_of(words: Seq<Seq<char>>, dash: int, n: nat) -> Option<Seq<Type>>
    decreases n,
{
    if n == 0 {
        Some(Seq::empty())
    } else {
        match (pops_of(words, dash, (n - 1) as nat), pop_of(words[dash - n])) {
            (Some(before), Some(t)) => Some(before.push(t)),
            _ => None,
        }
    }
}

/// The pushed types that the first `n` words behind the dash stand for.
pub open spec fn pushes_of(words: Seq<Seq<char>>, dash: int, n: nat, pops: Seq<Type>) -> Option<
    Seq<Resultant>,
>
    decreases n,
{
    if n == 0 {
        Some(Seq::empty())
    } else {
        match (
            pushes_of(words, dash, (n - 1) as nat, pops),
            resultant_of(words[dash + n], 0, words[dash + n].len() as int, pops),
        ) {
            (Some(before), Some(r)) => Some(before.push(r)),
            _ => None,
        }
    }
}

/// The capture effects that the first `n` words stand for.
pub open spec fn effects_of(words: Seq<Seq<char>>, n: nat, pops: Seq<Type>) -> Option<Seq<Effect>>
    decreases n,
{
    if n == 0 {
        Some(Seq::empty())
    } else {
        match (effects_of(words, (n - 1) as nat, pops), effect_of_word(words[n - 1], pops)) {
            (Some(before), Some(e)) => Some(before.push(e)),
            _ => None,
        }
    }
}

/// The stack effect that a text stands for: the words in front of the dash are the
/// popped slots, the deepest first; the words behind it the pushed slots, the lowest
/// first; the words behind a comma the capture effects.
pub open spec fn parsed_arity(text: Seq<char>) -> Option<ArityModel> {
    let comma = first_of(text, 0, text.len() as int, ',');
    let words = words_of(text, 0, comma);
    let dash = dash_of(words, 0);
    if dash >= words.len() {
        None
    } else {
        match pops_of(words, dash, dash as nat) {
            None => None,
            Some(pops) => match pushes_of(words, dash, (words.len() - dash - 1) as nat, pops) {
                None => None,
                Some(pushes) => if comma >= text.len() {
                    Some(ArityModel { pops, pushes, captures: Seq::empty() })
                } else {
                    let names = words_of(text, comma + 1, text.len() as int);
                    if names.len() == 0 {
                        None
                    } else {
                        match effects_of(names, names.len(), pops) {
                            None => None,
                            Some(captures) => Some(ArityModel { pops, pushes, captures }),
                        }
                    }
                },
            },
        }
    }
}

/// Adding a position below the bound keeps a set sorted and below the bound.
pub proof fn with_stays_below(m: MultiIndex, i: usize, n: int)
    requires
        m.sorted(),
        m.below(n),
        i < n,
    ensures
        m.with(i).sorted(),
        m.with(i).below(n),
{
    with_adds_one_member(m, i, 0);
    below_means_every_member(m, n);
    below_means_every_member(m.with(i), n);
    assert forall|j: usize| #[trigger] m.with(i).has(j) implies j < n by {
        with_adds_one_member(m, i, j);
    }
}

/// Adding a slot of unknown type to a set of such slots gives a set of such slots.
pub proof fn with_keeps_unknown(m: MultiIndex, i: usize, pops: Seq<Type>)
    requires
        all_unknown(m, pops),
        pops[i as int] == Type::Unknown,
    ensures
        all_unknown(m.with(i), pops),
    decreases m,
{
    reveal_with_fuel(all_unknown, 3);
    if i > m.el {
        match m.next {
            Some(n) => with_keeps_unknown(*n, i, pops),
            None => {},
        }
    }
}

fn find_char(word: &Vec<char>, from: usize, to: usize, c: char) -> (r: usize)
    requires
        from <= to <= word.len(),
    ensures
        r == first_of(word@, from as int, to as int, c),
        from <= r <= to,
{
    let mut i: usize = from;
    while i < to
        invariant
            from <= i <= to,
            to <= word.len(),
            first_of(word@, from as int, to as int, c) == first_of(word@, i as int, to as int, c),
        decreases to - i,
    {
        if word[i] == c {
            return i;
        }
        i += 1;
    }
    to
}

fn digit(c: char) -> (r: Option<usize>)
    ensures
        r == digit_of(c),
{
    if c == '0' {
        Some(0)
    } else if c == '1' {
        Some(1)
    } else if c == '2' {
        Some(2)
    } else if c == '3' {
        Some(3)
    } else if c == '4' {
        Some(4)
    } else if c == '5' {
        Some(5)
    } else if c == '6' {
        Some(6)
    } else if c == '7' {
        Some(7)
    } else if c == '8' {
        Some(8)
    } else if c == '9' {
        Some(9)
    } else {
        None
    }
}

/// Once digits spell no number, more digits behind them spell none either.
proof fn digits_failure_sticks(word: Seq<char>, from: int, k: int, to: int)
    requires
        from <= k <= to,
        digits_upto(word, from, k) is None,
    ensures
        digits_upto(word, from, to) is None,
    decreases to - k,
{
    if k < to {
        digits_failure_sticks(word, from, k, to - 1);
    }
}

fn read_number(word: &Vec<char>, from: usize, to: usize) -> (r: Option<usize>)
    requires
        from <= to <= word.len(),
    ensures
        r == number_of(word@, from as int, to as int),
{
    if from == to {
        return None;
    }
    let mut value: usize = 0;
    let mut i: usize = from;
    while i < to
        invariant
            from <= i <= to,
            to <= word.len(),
            digits_upto(word@, from as int, i as int) == Some(value),
        decreases to - i,
    {
        match digit(word[i]) {
            Some(d) => {
                if value > (usize::MAX - d) / 10 {
                    proof {
                        digits_failure_sticks(word@, from as int, i + 1, to as int);
                    }
                    return None;
                }
                value = value * 10 + d;
            },
            None => {
                proof {
                    digits_failure_sticks(word@, from as int, i + 1, to as int);
                }
                return None;
            },
        }
        i += 1;
    }
    Some(value)
}

fn copy_range(word: &Vec<char>, from: usize, to: usize) -> (r: Vec<char>)
    requires
        from <= to <= word.len(),
    ensures
        r@ == word@.subrange(from as int, to as int),
{
    let mut out: Vec<char> = Vec::new();
    let mut i: usize = from;
    while i < to
        invariant
            from <= i <= to,
            to <= word.len(),
            out@ == word@.subrange(from as int, i as int),
        decreases to - i,
    {
        out.push(word[i]);
        i += 1;
        assert(out@ =~= word@.subrange(from as int, i as int));
    }
    out
}

fn type_of_code(c: char) -> (r: Option<Type>)
    ensures
        r == code_type(c),
{
    Type::from_code(c)
}

#[verifier::loop_isolation(false)]
fn read_resultant(word: &Vec<char>, from: usize, to: usize, pops: &Vec<Type>) -> (r: Option<
    ResultantType,
>)
    requires
        from <= to <= word.len(),
    ensures
        match resultant_of(word@, from as int, to as int, pops@) {
            Some(t) => r is Some && r->0@ == t && t.wf(pops.len() as int) && t.normal(pops@),
            None => r is None,
        },
{
    if from == to {
        return None;
    }
    if to - from == 1 {
        match type_of_code(word[from]) {
            Some(t) => {
                return Some(ResultantType::Normal(t));
            },
            None => {},
        }
    }
    if digit(word[from]).is_none() {
        let name = copy_range(word, from, to);
        return Some(ResultantType::Recall(string_of(&name)));
    }
    let mut at = find_char(word, from, to, '|');
    let first = match read_number(word, from, at) {
        Some(v) => v,
        None => {
            return None;
        },
    };
    if first >= pops.len() || pops[first] != Type::Unknown {
        return None;
    }
    let mut set = MultiIndex::single(first);
    proof {
        reveal_with_fuel(MultiIndex::below, 2);
        reveal_with_fuel(all_unknown, 2);
    }
    let ghost goal = more_indices(word@, at as int, to as int, pops@, set);
    while at < to
        invariant
            from <= at <= to,
            to <= word.len(),
            set.sorted(),
            set.below(pops.len() as int),
            all_unknown(set, pops@),
            goal == more_indices(word@, at as int, to as int, pops@, set),
        decreases to - at,
    {
        let next = find_char(word, at + 1, to, '|');
        let value = match read_number(word, at + 1, next) {
            Some(v) => v,
            None => {
                return None;
            },
        };
        if value >= pops.len() || pops[value] != Type::Unknown {
            return None;
        }
        proof {
            with_stays_below(set, value, pops.len() as int);
            with_keeps_unknown(set, value, pops@);
        }
        set = set.including(value);
        at = next;
    }
    Some(ResultantType::Dependent(set))
}

fn read_effect(word: &Vec<char>, pops: &Vec<Type>) -> (r: Option<(String, VariableEffect)>)
    ensures
        match effect_of_word(word@, pops@) {
            Some(e) => r is Some && effect_of(r->0) == e && match e.defines {
                Some((t, _)) => t.wf(pops.len() as int) && t.normal(pops@),
                None => true,
            },
            None => r is None,
        },
{
    let len = word.len();
    if len == 0 {
        return None;
    }
    let expects = word[0] == '>';
    let start: usize = if expects {
        1
    } else {
        0
    };
    let colon = find_char(word, start, len, ':');
    if colon == start {
        return None;
    }
    let name = string_of(&copy_range(word, start, colon));
    if colon == len {
        return Some((name, VariableEffect { expects, defines: None }));
    }
    let sometimes = word[len - 1] == '?' && len - 1 > colon;
    let end: usize = if sometimes {
        (len - 1) as usize
    } else {
        len
    };
    match read_resultant(word, colon + 1, end, pops) {
        Some(t) => {
            let certainty = if sometimes {
                Certainty::Sometimes
            } else {
                Certainty::Always
            };
            Some((name, VariableEffect { expects, defines: Some((t, certainty)) }))
        },
        None => None,
    }
}

/// The views of a list of words.
pub open spec fn word_views(words: Seq<Vec<char>>) -> Seq<Seq<char>> {
    words.map_values(|w: Vec<char>| w@)
}

fn split_words(chars: &Vec<char>, from: usize, to: usize) -> (r: Vec<Vec<char>>)
    requires
        from <= to <= chars.len(),
    ensures
        word_views(r@) == words_of(chars@, from as int, to as int),
{
    let ghost goal = words_of(chars@, from as int, to as int);
    let mut out: Vec<Vec<char>> = Vec::new();
    let mut i: usize = from;
    assert(word_views(out@) =~= Seq::empty());
    while i < to
        invariant
            from <= i <= to,
            to <= chars.len(),
            goal == word_views(out@) + words_of(chars@, i as int, to as int),
        decreases to - i,
    {
        let end = find_char(chars, i, to, ' ');
        let ghost before = word_views(out@);
        let ghost rest = words_of(chars@, i as int, to as int);
        if end > i {
            let w = copy_range(chars, i, end);
            out.push(w);
            assert(word_views(out@) =~= before.push(chars@.subrange(i as int, end as int)));
            if end < to {
                assert(before + rest =~= word_views(out@) + words_of(
                    chars@,
                    end + 1,
                    to as int,
                ));
                i = end + 1;
            } else {
                assert(before + rest =~= word_views(out@) + words_of(
                    chars@,
                    to as int,
                    to as int,
                ));
                i = to;
            }
        } else {
            i = i + 1;
        }
    }
    assert(word_views(out@) + Seq::<Seq<char>>::empty() =~= word_views(out@));
    out
}

/// Once a word stands for no pushed type, the words up to a later one stand for none.
proof fn pushes_failure_sticks(words: Seq<Seq<char>>, dash: int, k: nat, n: nat, pops: Seq<Type>)
    requires
        pushes_of(words, dash, k, pops) is None,
        k <= n,
    ensures
        pushes_of(words, dash, n, pops) is None,
    decreases n,
{
    if n > k {
        pushes_failure_sticks(words, dash, k, (n - 1) as nat, pops);
    }
}

/// Once a word stands for no popped slot, the words up to an earlier one stand for none.
proof fn pops_failure_sticks(words: Seq<Seq<char>>, dash: int, k: nat, n: nat)
    requires
        pops_of(words, dash, k) is None,
        k <= n,
    ensures
        pops_of(words, dash, n) is None,
    decreases n,
{
    if n > k {
        pops_failure_sticks(words, dash, k, (n - 1) as nat);
    }
}

/// Once a word stands for no capture effect, the words up to a later one stand for none.
proof fn effects_failure_sticks(words: Seq<Seq<char>>, k: nat, n: nat, pops: Seq<Type>)
    requires
        effects_of(words, k, pops) is None,
        k <= n,
    ensures
        effects_of(words, n, pops) is None,
    decreases n,
{
    if n > k {
        effects_failure_sticks(words, k, (n - 1) as nat, pops);
    }
}

fn find_dash(words: &Vec<Vec<char>>) -> (r: usize)
    ensures
        r == dash_of(word_views(words@), 0),
        r <= words.len(),
{
    let ghost ws = word_views(words@);
    let mut dash: usize = 0;
    while dash < words.len()
        invariant
            dash <= words.len(),
            ws == word_views(words@),
            dash_of(ws, 0) == dash_of(ws, dash as int),
        decreases words.len() - dash,
    {
        assert(ws[dash as int] == words@[dash as int]@);
        if is_dash(&words[dash]) {
            return dash;
        }
        dash += 1;
    }
    dash
}

fn is_dash(word: &Vec<char>) -> (r: bool)
    ensures
        r == (word@ == seq!['-']),
{
    if word.len() == 1 && word[0] == '-' {
        assert(word@ =~= seq!['-']);
        true
    } else {
        if word.len() == 1 {
            assert(word@[0] != seq!['-'][0]);
        } else {
            assert(word@.len() != seq!['-'].len());
        }
        false
    }
}

fn read_pop(word: &Vec<char>) -> (r: Option<Type>)
    ensures
        r == pop_of(word@),
{
    let known = if word.len() == 1 {
        type_of_code(word[0])
    } else {
        None
    };
    match known {
        Some(t) => Some(t),
        None => {
            if read_number(word, 0, word.len()).is_none() {
                None
            } else {
                Some(Type::Unknown)
            }
        },
    }
}

impl Arity {
    /// Reads the text form of a stack effect. Gives nothing when the text is not of
    /// that form, or when it names a slot that is not popped with unknown type.
    #[verifier::loop_isolation(false)]
    pub fn parse(text: &str) -> (r: Option<Arity>)
        ensures
            match parsed_arity(text@) {
                Some(a) => r is Some && r->0@ == a && a.wf() && a.normal(),
                None => r is None,
            },
    {
        let chars = chars_of(text);
        let comma = find_char(&chars, 0, chars.len(), ',');
        let words = split_words(&chars, 0, comma);
        let ghost ws = word_views(words@);
        let dash = find_dash(&words);
        if dash >= words.len() {
            return None;
        }
        let mut pops: Vec<Type> = Vec::new();
        let mut n: usize = 0;
        while n < dash
            invariant
                n <= dash,
                dash < words.len(),
                ws == word_views(words@),
                pops_of(ws, dash as int, n as nat) == Some(pops@),
            decreases dash - n,
        {
            assert(ws[dash - n - 1] == words@[dash - n - 1]@);
            match read_pop(&words[dash - n - 1]) {
                Some(t) => pops.push(t),
                None => {
                    proof {
                        pops_failure_sticks(ws, dash as int, (n + 1) as nat, dash as nat);
                    }
                    return None;
                },
            }
            n += 1;
        }
        let count = words.len() - dash - 1;
        let mut pushes: Vec<ResultantType> = Vec::new();
        let mut k: usize = 0;
        assert(resultants(pushes@) =~= Seq::empty());
        while k < count
            invariant
                k <= count,
                dash < words.len(),
                count == words.len() - dash - 1,
                ws == word_views(words@),
                pushes_of(ws, dash as int, k as nat, pops@) == Some(resultants(pushes@)),
                forall|j: int|
                    0 <= j < pushes.len() ==> (#[trigger] resultants(pushes@)[j]).wf(
                        pops.len() as int,
                    ) && resultants(pushes@)[j].normal(pops@),
            decreases count - k,
        {
            let ghost before = resultants(pushes@);
            assert(ws[dash + k + 1] == words@[dash + k + 1]@);
            let word = &words[dash + k + 1];
            match read_resultant(word, 0, word.len(), &pops) {
                Some(t) => {
                    let ghost tv = t@;
                    pushes.push(t);
                    assert(resultants(pushes@) =~= before.push(tv));
                },
                None => {
                    proof {
                        pushes_failure_sticks(
                            ws,
                            dash as int,
                            (k + 1) as nat,
                            count as nat,
                            pops@,
                        );
                    }
                    return None;
                },
            }
            proof {
                assert forall|j: int| 0 <= j < pushes.len() implies (#[trigger] resultants(
                    pushes@,
                )[j]).wf(pops.len() as int) && resultants(pushes@)[j].normal(pops@) by {
                    if j < before.len() {
                        assert(resultants(pushes@)[j] == before[j]);
                    }
                }
            }
            k += 1;
        }
        let mut captures: Vec<(String, VariableEffect)> = Vec::new();
        assert(effects(captures@) =~= Seq::empty());
        if comma < chars.len() {
            let names = split_words(&chars, comma + 1, chars.len());
            let ghost ns = word_views(names@);
            if names.len() == 0 {
                return None;
            }
            let mut i: usize = 0;
            while i < names.len()
                invariant
                    i <= names.len(),
                    ns == word_views(names@),
                    effects_of(ns, i as nat, pops@) == Some(effects(captures@)),
                    forall|j: int|
                        0 <= j < captures.len() ==> match (#[trigger] effects(
                            captures@,
                        )[j]).defines {
                            Some((t, _)) => t.wf(pops.len() as int) && t.normal(pops@),
                            None => true,
                        },
                decreases names.len() - i,
            {
                let ghost before = effects(captures@);
                assert(ns[i as int] == names@[i as int]@);
                match read_effect(&names[i], &pops) {
                    Some(c) => {
                        let ghost cv = effect_of(c);
                        captures.push(c);
                        assert(effects(captures@) =~= before.push(cv));
                    },
                    None => {
                        proof {
                            effects_failure_sticks(ns, (i + 1) as nat, ns.len(), pops@);
                        }
                        return None;
                    },
                }
                proof {
                    assert forall|j: int| 0 <= j < captures.len() implies match (
                    #[trigger] effects(captures@)[j]).defines {
                        Some((t, _)) => t.wf(pops.len() as int) && t.normal(pops@),
                        None => true,
                    } by {
                        if j < before.len() {
                            assert(effects(captures@)[j] == before[j]);
                        }
                    }
                }
                i += 1;
            }
        }
        Some(Arity { pops, pushes, captures })
    }
}

} // verus!
