//! The text form of a stack effect reads back as the effect.
use vstd::prelude::*;
use crate::lang::arity::{all_unknown, ArityModel, Certainty, Effect, Resultant};
use crate::lang::arity_parse::{
    dash_of, digit_of, digits_upto, effect_of_word, effects_of, first_of, more_indices,
    number_of, parsed_arity, pop_of, pops_of, pushes_of, resultant_of, words_of,
};
use crate::lang::arity_text::{
    arity_text, captures_text, effect_text, indices_text, pop_text, pops_text, pushes_text,
    resultant_text,
};
use crate::lang::multi_index::{
    sorted_lists_are_canonical, with_adds_one_member, MultiIndex,
};
use crate::lang::types::{code_type, type_code, Type};
use crate::text::{decimal, digit_char};

verus! {

/// A character is a decimal digit.
pub open spec fn is_digit(c: char) -> bool {
    digit_of(c) is Some
}

/// A numeral is made of digits and is not empty.
pub proof fn numerals_are_digits(n: nat)
    ensures
        decimal(n).len() > 0,
        forall|i: int| 0 <= i < decimal(n).len() ==> is_digit(#[trigger] decimal(n)[i]),
    decreases n,
{
    if n >= 10 {
        numerals_are_digits(n / 10);
        let before = decimal(n / 10);
        assert forall|i: int| 0 <= i < decimal(n).len() implies is_digit(
            #[trigger] decimal(n)[i],
        ) by {
            if i < before.len() {
                assert(decimal(n)[i] == before[i]);
            }
        }
    }
}

/// A stretch of a word that holds the numeral of a number reads as that number.
pub proof fn numeral_reads_back(word: Seq<char>, from: int, to: int, n: nat)
    requires
        0 <= from <= to <= word.len(),
        word.subrange(from, to) == decimal(n),
        n <= usize::MAX,
    ensures
        from < to,
        number_of(word, from, to) == Some(n as usize),
    decreases n,
{
    let text = word.subrange(from, to);
    if n < 10 {
        assert(text.len() == 1);
        assert(word[from] == text[0]);
        assert(digits_upto(word, from, from) == Some(0usize));
    } else {
        numerals_are_digits(n / 10);
        assert(text.len() == decimal(n / 10).len() + 1);
        assert(word[to - 1] == text[to - 1 - from]);
        assert(word.subrange(from, to - 1) =~= decimal(n / 10)) by {
            assert(word.subrange(from, to - 1) =~= text.drop_last());
        }
        numeral_reads_back(word, from, to - 1, n / 10);
        assert(digit_of(digit_char(n % 10)) == Some((n % 10) as usize));
    }
}

/// No character from `from` up to `to` is `c`.
pub open spec fn free_of(text: Seq<char>, from: int, to: int, c: char) -> bool {
    forall|i: int| from <= i < to ==> #[trigger] text[i] != c
}

/// The first `c` is at `to` when the stretch up to `to` holds none.
pub proof fn first_of_skips(text: Seq<char>, from: int, to: int, end: int, c: char)
    requires
        0 <= from <= to <= end <= text.len(),
        free_of(text, from, to, c),
        to == end || text[to] == c,
    ensures
        first_of(text, from, end, c) == to,
    decreases to - from,
{
    if from < to {
        first_of_skips(text, from + 1, to, end, c);
    }
}

/// The words, with a space between each two.
pub open spec fn joined(words: Seq<Seq<char>>) -> Seq<char>
    decreases words.len(),
{
    if words.len() == 0 {
        Seq::empty()
    } else if words.len() == 1 {
        words[0]
    } else {
        words[0] + seq![' '] + joined(words.drop_first())
    }
}

/// Every word has a character and no space.
pub open spec fn proper_words(words: Seq<Seq<char>>) -> bool {
    forall|i: int|
        0 <= i < words.len() ==> (#[trigger] words[i]).len() > 0 && free_of(
            words[i],
            0,
            words[i].len() as int,
            ' ',
        )
}

/// A stretch of a text that holds words with a space between each two splits into
/// those words.
pub proof fn joined_words_split(text: Seq<char>, from: int, to: int, words: Seq<Seq<char>>)
    requires
        0 <= from <= to <= text.len(),
        text.subrange(from, to) == joined(words),
        proper_words(words),
    ensures
        words_of(text, from, to) == words,
    decreases words.len(),
{
    let stretch = text.subrange(from, to);
    if words.len() == 0 {
        assert(from == to);
        assert(words =~= Seq::empty());
    } else {
        let first = words[0];
        let end = from + first.len();
        assert(first.len() > 0);
        if words.len() == 1 {
            assert(end == to);
            assert forall|i: int| from <= i < end implies #[trigger] text[i] != ' ' by {
                assert(text[i] == stretch[i - from]);
                assert(first[i - from] != ' ');
            }
            first_of_skips(text, from, end, to, ' ');
            assert(text.subrange(from, end) =~= first);
            assert(words =~= seq![first]);
        } else {
            let rest = words.drop_first();
            assert(stretch.len() == first.len() + 1 + joined(rest).len());
            assert forall|i: int| from <= i < end implies #[trigger] text[i] != ' ' by {
                assert(text[i] == stretch[i - from]);
                assert(stretch[i - from] == first[i - from]);
                assert(first[i - from] != ' ');
            }
            assert(text[end] == stretch[end - from]);
            assert(stretch[end - from] == ' ');
            first_of_skips(text, from, end, to, ' ');
            assert(text.subrange(from, end) =~= first);
            assert(text.subrange(end + 1, to) =~= joined(rest)) by {
                assert(text.subrange(end + 1, to) =~= stretch.subrange(
                    first.len() as int + 1,
                    stretch.len() as int,
                ));
            }
            assert(proper_words(rest)) by {
                assert forall|i: int| 0 <= i < rest.len() implies (#[trigger] rest[i]).len() > 0
                    && free_of(rest[i], 0, rest[i].len() as int, ' ') by {
                    assert(rest[i] == words[i + 1]);
                }
            }
            joined_words_split(text, end + 1, to, rest);
            assert(words =~= seq![first] + rest);
        }
    }
}

/// The text of a set of positions starts with a digit and holds digits and bars only.
pub proof fn indices_text_is_plain(m: MultiIndex)
    ensures
        indices_text(m).len() > 0,
        is_digit(indices_text(m)[0]),
        free_of(indices_text(m), 0, indices_text(m).len() as int, ' '),
        free_of(indices_text(m), 0, indices_text(m).len() as int, ','),
        indices_text(m) != seq!['-'],
    decreases m,
{
    assert(seq!['-'][0] == '-');
    numerals_are_digits(m.el as nat);
    let head = decimal(m.el as nat);
    match m.next {
        Some(n) => {
            indices_text_is_plain(*n);
            let text = indices_text(m);
            let rest = indices_text(*n);
            assert(text[0] == head[0]);
            assert forall|i: int| 0 <= i < text.len() implies #[trigger] text[i] != ' ' && text[i]
                != ',' by {
                if i < head.len() {
                    assert(text[i] == head[i]);
                    assert(is_digit(head[i]));
                } else if i > head.len() {
                    assert(text[i] == rest[i - head.len() - 1]);
                }
            }
        },
        None => {
            assert forall|i: int| 0 <= i < head.len() implies #[trigger] head[i] != ' ' && head[i]
                != ',' by {
                assert(is_digit(head[i]));
            }
            assert(is_digit(head[0]));
        },
    }
}

/// The positions behind a bar read back: they are added to the set read so far.
pub proof fn more_indices_read_back(
    word: Seq<char>,
    at: int,
    to: int,
    pops: Seq<Type>,
    acc: MultiIndex,
    n: MultiIndex,
)
    requires
        0 <= at < to <= word.len(),
        word[at] == '|',
        word.subrange(at + 1, to) == indices_text(n),
        acc.sorted(),
        all_unknown(n, pops),
        n.below(pops.len() as int),
    ensures
        more_indices(word, at, to, pops, acc) is Some,
        more_indices(word, at, to, pops, acc)->0.sorted(),
        forall|j: usize|
            #[trigger] more_indices(word, at, to, pops, acc)->0.has(j) == (acc.has(j) || n.has(j)),
    decreases n,
{
    let text = word.subrange(at + 1, to);
    let head = decimal(n.el as nat);
    numerals_are_digits(n.el as nat);
    let next = at + 1 + head.len();
    assert(text.len() >= head.len()) by {
        match n.next {
            Some(rest) => {
                assert(text.len() == head.len() + 1 + indices_text(*rest).len());
            },
            None => {},
        }
    }
    assert forall|i: int| at + 1 <= i < next implies #[trigger] word[i] != '|' by {
        assert(word[i] == text[i - at - 1]);
        assert(text[i - at - 1] == head[i - at - 1]);
        assert(is_digit(head[i - at - 1]));
    }
    match n.next {
        Some(rest) => {
            assert(text.len() == head.len() + 1 + indices_text(*rest).len());
            indices_text_is_plain(*rest);
            assert(word[next] == text[next - at - 1]);
            assert(text[next - at - 1] == '|');
            first_of_skips(word, at + 1, next, to, '|');
            assert(word.subrange(at + 1, next) =~= head);
            numeral_reads_back(word, at + 1, next, n.el as nat);
            assert(word.subrange(next + 1, to) =~= indices_text(*rest)) by {
                assert(word.subrange(next + 1, to) =~= text.subrange(
                    head.len() as int + 1,
                    text.len() as int,
                ));
            }
            assert forall|j: usize| #[trigger] acc.with(n.el).has(j) == (acc.has(j) || j == n.el) by {
                with_adds_one_member(acc, n.el, j);
            }
            with_adds_one_member(acc, n.el, 0);
            more_indices_read_back(word, next, to, pops, acc.with(n.el), *rest);
            let r = more_indices(word, at, to, pops, acc)->0;
            assert forall|j: usize| #[trigger] r.has(j) == (acc.has(j) || n.has(j)) by {
                assert(acc.with(n.el).has(j) == (acc.has(j) || j == n.el));
            }
        },
        None => {
            assert(next == to);
            first_of_skips(word, at + 1, next, to, '|');
            assert(word.subrange(at + 1, next) =~= head);
            numeral_reads_back(word, at + 1, next, n.el as nat);
            with_adds_one_member(acc, n.el, 0);
            assert(more_indices(word, to, to, pops, acc.with(n.el)) == Some(acc.with(n.el)));
            let r = more_indices(word, at, to, pops, acc)->0;
            assert forall|j: usize| #[trigger] r.has(j) == (acc.has(j) || n.has(j)) by {
                with_adds_one_member(acc, n.el, j);
            }
        },
    }
}

/// A name that can stand for the type of a capture variable among pushed types: it is
/// not empty, does not start with a digit, is no type letter and no dash, and holds no
/// space, comma, colon or question mark.
pub open spec fn plain_name(n: Seq<char>) -> bool {
    &&& n.len() > 0
    &&& !is_digit(n[0])
    &&& !(n.len() == 1 && code_type(n[0]) is Some)
    &&& n != seq!['-']
    &&& free_of(n, 0, n.len() as int, ' ')
    &&& free_of(n, 0, n.len() as int, ',')
    &&& free_of(n, 0, n.len() as int, ':')
    &&& free_of(n, 0, n.len() as int, '?')
}

/// The text of a pushed type reads back as that type, where dependencies name slots
/// of unknown type and names of capture variables are plain.
pub proof fn resultant_reads_back(
    word: Seq<char>,
    from: int,
    to: int,
    pops: Seq<Type>,
    r: Resultant,
)
    requires
        0 <= from <= to <= word.len(),
        word.subrange(from, to) == resultant_text(r),
        r is Recall ==> plain_name(r->Recall_0),
        r.wf(pops.len() as int),
        r.normal(pops),
    ensures
        resultant_of(word, from, to, pops) == Some(r),
{
    let text = word.subrange(from, to);
    match r {
        Resultant::Normal(t) => {
            assert(text.len() == 1);
            assert(word[from] == text[0]);
            assert(code_type(type_code(t)) == Some(t));
        },
        Resultant::Dependent(m) => {
            indices_text_is_plain(m);
            let head = decimal(m.el as nat);
            numerals_are_digits(m.el as nat);
            assert(word[from] == text[0]);
            assert(code_type(word[from]) is None);
            let at = from + head.len();
            assert(text.len() >= head.len()) by {
                match m.next {
                    Some(n) => {
                        assert(text.len() == head.len() + 1 + indices_text(*n).len());
                    },
                    None => {},
                }
            }
            assert forall|i: int| from <= i < at implies #[trigger] word[i] != '|' by {
                assert(word[i] == text[i - from]);
                assert(text[i - from] == head[i - from]);
                assert(is_digit(head[i - from]));
            }
            match m.next {
                Some(n) => {
                    assert(text.len() == head.len() + 1 + indices_text(*n).len());
                    assert(word[at] == text[at - from]);
                    first_of_skips(word, from, at, to, '|');
                    assert(word.subrange(from, at) =~= head);
                    numeral_reads_back(word, from, at, m.el as nat);
                    assert(word.subrange(at + 1, to) =~= indices_text(*n)) by {
                        assert(word.subrange(at + 1, to) =~= text.subrange(
                            head.len() as int + 1,
                            text.len() as int,
                        ));
                    }
                    more_indices_read_back(word, at, to, pops, MultiIndex::unit(m.el), *n);
                    let got = more_indices(word, at, to, pops, MultiIndex::unit(m.el))->0;
                    assert forall|j: usize| #[trigger] got.has(j) == m.has(j) by {}
                    sorted_lists_are_canonical(got, m);
                },
                None => {
                    assert(at == to);
                    first_of_skips(word, from, at, to, '|');
                    assert(word.subrange(from, at) =~= head);
                    numeral_reads_back(word, from, at, m.el as nat);
                    assert(more_indices(word, to, to, pops, MultiIndex::unit(m.el)) == Some(
                        MultiIndex::unit(m.el),
                    ));
                },
            }
        },
        Resultant::Recall(name) => {
            assert(word[from] == text[0]);
        },
    }
}

/// The text of a pushed type is a proper word without a comma, and no dash.
pub proof fn resultant_text_is_a_word(r: Resultant)
    requires
        r is Recall ==> plain_name(r->Recall_0),
    ensures
        resultant_text(r).len() > 0,
        free_of(resultant_text(r), 0, resultant_text(r).len() as int, ' '),
        free_of(resultant_text(r), 0, resultant_text(r).len() as int, ','),
        resultant_text(r) != seq!['-'],
{
    let dash = seq!['-'];
    assert(dash[0] == '-');
    match r {
        Resultant::Dependent(m) => {
            indices_text_is_plain(m);
            assert(is_digit(indices_text(m)[0]));
        },
        Resultant::Normal(t) => {
            assert(resultant_text(r)[0] == type_code(t));
        },
        Resultant::Recall(_) => {},
    }
}

/// The text of a popped slot is a proper word without a comma, and no dash; it reads
/// back as the type of the slot.
pub proof fn pop_reads_back(a: ArityModel, i: int)
    requires
        0 <= i < a.pops.len() <= usize::MAX,
    ensures
        pop_text(a, i).len() > 0,
        free_of(pop_text(a, i), 0, pop_text(a, i).len() as int, ' '),
        free_of(pop_text(a, i), 0, pop_text(a, i).len() as int, ','),
        pop_text(a, i) != seq!['-'],
        pop_of(pop_text(a, i)) == Some(a.pops[i]),
{
    let word = pop_text(a, i);
    assert(seq!['-'][0] == '-');
    if word == decimal(i as nat) {
        numerals_are_digits(i as nat);
        assert forall|j: int| 0 <= j < word.len() implies #[trigger] word[j] != ' ' && word[j]
            != ',' by {
            assert(is_digit(word[j]));
        }
        assert(is_digit(word[0]));
        assert(word.subrange(0, word.len() as int) =~= word);
        numeral_reads_back(word, 0, word.len() as int, i as nat);
    } else {
        assert(code_type(type_code(a.pops[i])) == Some(a.pops[i]));
    }
}

/// One more word behind others goes behind a space.
pub proof fn joined_with_one_more(words: Seq<Seq<char>>, w: Seq<char>)
    requires
        words.len() > 0,
    ensures
        joined(words.push(w)) == joined(words) + seq![' '] + w,
    decreases words.len(),
{
    let all = words.push(w);
    if words.len() == 1 {
        assert(all.drop_first() =~= seq![w]);
        assert(joined(all.drop_first()) == w);
    } else {
        assert(all.drop_first() =~= words.drop_first().push(w));
        joined_with_one_more(words.drop_first(), w);
        assert(joined(all) =~= joined(words) + seq![' '] + w);
    }
}

/// The words of the text of an effect in front of its capture effects: the popped
/// slots, the deepest first, a dash, and the pushed slots.
pub open spec fn head_words(a: ArityModel) -> Seq<Seq<char>> {
    Seq::new(
        a.pops.len() + 1 + a.pushes.len(),
        |j: int|
            if j < a.pops.len() {
                pop_text(a, a.pops.len() - 1 - j)
            } else if j == a.pops.len() {
                seq!['-']
            } else {
                resultant_text(a.pushes[j - a.pops.len() - 1])
            },
    )
}

/// The dash and the first `k` pushed slots, as text, are their words joined.
pub proof fn pushes_are_joined(a: ArityModel, k: nat)
    requires
        k <= a.pushes.len(),
    ensures
        seq!['-'] + pushes_text(a.pushes, k) == joined(
            head_words(a).subrange(a.pops.len() as int, a.pops.len() as int + 1 + k),
        ),
    decreases k,
{
    let n = a.pops.len() as int;
    let words = head_words(a).subrange(n, n + 1 + k);
    if k == 0 {
        assert(words =~= seq![seq!['-']]);
        assert(seq!['-'] + pushes_text(a.pushes, 0) =~= seq!['-']);
    } else {
        pushes_are_joined(a, (k - 1) as nat);
        let before = head_words(a).subrange(n, n + k);
        assert(words =~= before.push(resultant_text(a.pushes[k - 1])));
        joined_with_one_more(before, resultant_text(a.pushes[k - 1]));
        assert(seq!['-'] + pushes_text(a.pushes, k) =~= seq!['-'] + pushes_text(
            a.pushes,
            (k - 1) as nat,
        ) + seq![' '] + resultant_text(a.pushes[k - 1]));
    }
}

/// The text of an effect in front of its capture effects.
pub open spec fn head_text(a: ArityModel) -> Seq<char> {
    pops_text(a, a.pops.len()) + seq!['-'] + pushes_text(a.pushes, a.pushes.len())
}

/// The `k` topmost popped slots, the dash and the pushed slots, as text, are their
/// words joined.
pub proof fn head_is_joined(a: ArityModel, k: nat)
    requires
        k <= a.pops.len(),
    ensures
        pops_text(a, k) + seq!['-'] + pushes_text(a.pushes, a.pushes.len()) == joined(
            head_words(a).subrange(a.pops.len() - k, head_words(a).len() as int),
        ),
    decreases k,
{
    let n = a.pops.len() as int;
    let total = head_words(a).len() as int;
    let words = head_words(a).subrange(n - k, total);
    if k == 0 {
        pushes_are_joined(a, a.pushes.len());
        assert(pops_text(a, 0) + seq!['-'] + pushes_text(a.pushes, a.pushes.len()) =~= seq!['-']
            + pushes_text(a.pushes, a.pushes.len()));
    } else {
        head_is_joined(a, (k - 1) as nat);
        assert(words.len() >= 2);
        assert(words[0] == pop_text(a, k - 1));
        assert(words.drop_first() =~= head_words(a).subrange(n - k + 1, total));
        assert(pops_text(a, k) + seq!['-'] + pushes_text(a.pushes, a.pushes.len()) =~= pop_text(
            a,
            k - 1,
        ) + seq![' '] + (pops_text(a, (k - 1) as nat) + seq!['-'] + pushes_text(
            a.pushes,
            a.pushes.len(),
        )));
    }
}

/// Words without a character hold none in their joined text, but for the space.
pub proof fn joined_is_free_of(words: Seq<Seq<char>>, c: char)
    requires
        c != ' ',
        forall|i: int|
            0 <= i < words.len() ==> free_of(#[trigger] words[i], 0, words[i].len() as int, c),
    ensures
        free_of(joined(words), 0, joined(words).len() as int, c),
    decreases words.len(),
{
    if words.len() >= 2 {
        let rest = words.drop_first();
        assert forall|i: int| 0 <= i < rest.len() implies free_of(
            #[trigger] rest[i],
            0,
            rest[i].len() as int,
            c,
        ) by {
            assert(rest[i] == words[i + 1]);
        }
        joined_is_free_of(rest, c);
        let text = joined(words);
        assert forall|i: int| 0 <= i < text.len() implies #[trigger] text[i] != c by {
            if i < words[0].len() {
                assert(text[i] == words[0][i]);
            } else if i > words[0].len() {
                assert(text[i] == joined(rest)[i - words[0].len() - 1]);
            }
        }
    }
}

/// The names of capture variables among the first `k` pushed types are plain.
pub open spec fn plain_pushes(a: ArityModel) -> bool {
    forall|i: int|
        0 <= i < a.pushes.len() ==> ((#[trigger] a.pushes[i]) is Recall ==> plain_name(
            a.pushes[i]->Recall_0,
        ))
}

/// The words in front of the capture effects are proper words without commas.
pub proof fn head_words_are_proper(a: ArityModel)
    requires
        a.pops.len() <= usize::MAX,
        plain_pushes(a),
    ensures
        proper_words(head_words(a)),
        forall|i: int|
            0 <= i < head_words(a).len() ==> free_of(
                #[trigger] head_words(a)[i],
                0,
                head_words(a)[i].len() as int,
                ',',
            ),
        forall|i: int| 0 <= i < a.pops.len() ==> #[trigger] head_words(a)[i] != seq!['-'],
{
    let words = head_words(a);
    let n = a.pops.len() as int;
    assert forall|i: int| 0 <= i < words.len() implies (#[trigger] words[i]).len() > 0 && free_of(
        words[i],
        0,
        words[i].len() as int,
        ' ',
    ) && free_of(words[i], 0, words[i].len() as int, ',') && (i < n ==> words[i] != seq![
        '-',
    ]) by {
        if i < n {
            pop_reads_back(a, n - 1 - i);
        } else if i > n {
            resultant_text_is_a_word(a.pushes[i - n - 1]);
        }
    }
}

/// The dash is found behind the words of the popped slots.
pub proof fn dash_is_found(a: ArityModel, from: int)
    requires
        0 <= from <= a.pops.len(),
        forall|i: int| 0 <= i < a.pops.len() ==> #[trigger] head_words(a)[i] != seq!['-'],
    ensures
        dash_of(head_words(a), from) == a.pops.len(),
    decreases a.pops.len() - from,
{
    if from < a.pops.len() {
        assert(head_words(a)[from] != seq!['-']);
        dash_is_found(a, from + 1);
    }
}

/// The words of the popped slots read back as their types.
pub proof fn pops_read_back(a: ArityModel, k: nat)
    requires
        k <= a.pops.len() <= usize::MAX,
    ensures
        pops_of(head_words(a), a.pops.len() as int, k) == Some(a.pops.take(k as int)),
    decreases k,
{
    if k == 0 {
        assert(a.pops.take(0) =~= Seq::empty());
    } else {
        pops_read_back(a, (k - 1) as nat);
        pop_reads_back(a, k - 1);
        assert(head_words(a)[a.pops.len() - k] == pop_text(a, k - 1));
        assert(a.pops.take(k - 1).push(a.pops[k - 1]) =~= a.pops.take(k as int));
    }
}

/// The words of the pushed slots read back as their types.
pub proof fn pushes_read_back(a: ArityModel, k: nat)
    requires
        k <= a.pushes.len(),
        a.wf(),
        a.normal(),
        plain_pushes(a),
    ensures
        pushes_of(head_words(a), a.pops.len() as int, k, a.pops) == Some(a.pushes.take(k as int)),
    decreases k,
{
    if k == 0 {
        assert(a.pushes.take(0) =~= Seq::empty());
    } else {
        pushes_read_back(a, (k - 1) as nat);
        let word = head_words(a)[a.pops.len() as int + k];
        assert(word == resultant_text(a.pushes[k - 1]));
        assert(word.subrange(0, word.len() as int) =~= word);
        resultant_reads_back(word, 0, word.len() as int, a.pops, a.pushes[k - 1]);
        assert(a.pushes.take(k - 1).push(a.pushes[k - 1]) =~= a.pushes.take(k as int));
    }
}

/// A name that a capture variable can have in the text of an effect: it is not
/// empty, does not start with `>`, and holds no space and no colon.
pub open spec fn capture_name(n: Seq<char>) -> bool {
    &&& n.len() > 0
    &&& n[0] != '>'
    &&& free_of(n, 0, n.len() as int, ' ')
    &&& free_of(n, 0, n.len() as int, ':')
}

/// The capture effects can be written down: the variables have names that can be
/// read, and so have the capture variables that their types name.
pub open spec fn plain_captures(a: ArityModel) -> bool {
    forall|i: int|
        0 <= i < a.captures.len() ==> capture_name((#[trigger] a.captures[i]).name) && (
        match a.captures[i].defines {
            Some((r, _)) => r is Recall ==> plain_name(r->Recall_0),
            None => true,
        })
}

/// The text of a capture effect is a proper word, and reads back as the effect.
pub proof fn effect_reads_back(e: Effect, pops: Seq<Type>)
    requires
        capture_name(e.name),
        match e.defines {
            Some((r, _)) => r.wf(pops.len() as int) && r.normal(pops) && (r is Recall
                ==> plain_name(r->Recall_0)),
            None => true,
        },
    ensures
        effect_text(e).len() > 0,
        free_of(effect_text(e), 0, effect_text(e).len() as int, ' '),
        effect_of_word(effect_text(e), pops) == Some(e),
{
    let word = effect_text(e);
    let lead: Seq<char> = if e.expects {
        seq!['>']
    } else {
        Seq::empty()
    };
    let start = lead.len() as int;
    let colon = start + e.name.len();
    match e.defines {
        None => {
            assert(word =~= lead + e.name);
            assert forall|i: int| 0 <= i < word.len() implies #[trigger] word[i] != ' ' by {
                if i >= start {
                    assert(word[i] == e.name[i - start]);
                }
            }
            assert(word[0] == if e.expects {
                '>'
            } else {
                e.name[0]
            });
            assert forall|i: int| start <= i < colon implies #[trigger] word[i] != ':' by {
                assert(word[i] == e.name[i - start]);
            }
            first_of_skips(word, start, colon, word.len() as int, ':');
            assert(word.subrange(start, colon) =~= e.name);
        },
        Some((r, c)) => {
            let mark: Seq<char> = if c == Certainty::Sometimes {
                seq!['?']
            } else {
                Seq::empty()
            };
            let kind = resultant_text(r);
            resultant_text_is_a_word(r);
            assert(word =~= lead + e.name + seq![':'] + kind + mark);
            let end = colon + 1 + kind.len();
            assert forall|i: int| 0 <= i < word.len() implies #[trigger] word[i] != ' ' by {
                if start <= i < colon {
                    assert(word[i] == e.name[i - start]);
                } else if colon < i < end {
                    assert(word[i] == kind[i - colon - 1]);
                }
            }
            assert(word[0] == if e.expects {
                '>'
            } else {
                e.name[0]
            });
            assert forall|i: int| start <= i < colon implies #[trigger] word[i] != ':' by {
                assert(word[i] == e.name[i - start]);
            }
            assert(word[colon] == ':');
            first_of_skips(word, start, colon, word.len() as int, ':');
            assert(word.subrange(start, colon) =~= e.name);
            assert(word.subrange(colon + 1, end) =~= kind);
            assert(word[end - 1] == kind[kind.len() - 1]);
            assert(kind[kind.len() - 1] != '?') by {
                match r {
                    Resultant::Normal(t) => {},
                    Resultant::Dependent(m) => {
                        last_of_indices_is_a_digit(m);
                    },
                    Resultant::Recall(n) => {},
                }
            }
            resultant_reads_back(word, colon + 1, end, pops, r);
        },
    }
}

/// The text of a set of positions ends with a digit.
pub proof fn last_of_indices_is_a_digit(m: MultiIndex)
    ensures
        indices_text(m).len() > 0,
        is_digit(indices_text(m).last()),
    decreases m,
{
    numerals_are_digits(m.el as nat);
    match m.next {
        Some(n) => {
            last_of_indices_is_a_digit(*n);
            let text = indices_text(m);
            let rest = indices_text(*n);
            assert(text.last() == rest.last());
        },
        None => {
            let head = decimal(m.el as nat);
            assert(is_digit(head[head.len() - 1]));
        },
    }
}

/// The texts of the capture effects.
pub open spec fn effect_words(a: ArityModel) -> Seq<Seq<char>> {
    a.captures.map_values(|e: Effect| effect_text(e))
}

/// The text of the first `k` capture effects is a comma, a space, and their words
/// joined.
pub proof fn captures_are_joined(a: ArityModel, k: nat)
    requires
        0 < k <= a.captures.len(),
    ensures
        captures_text(a.captures, k) == seq![',', ' '] + joined(effect_words(a).take(k as int)),
    decreases k,
{
    let words = effect_words(a).take(k as int);
    if k == 1 {
        assert(words =~= seq![effect_text(a.captures[0])]);
        assert(captures_text(a.captures, 0) =~= Seq::<char>::empty());
        assert(captures_text(a.captures, 1) =~= seq![',', ' '] + effect_text(a.captures[0]));
    } else {
        captures_are_joined(a, (k - 1) as nat);
        let before = effect_words(a).take(k - 1);
        assert(words =~= before.push(effect_text(a.captures[k - 1])));
        joined_with_one_more(before, effect_text(a.captures[k - 1]));
        assert(captures_text(a.captures, k) =~= seq![',', ' '] + (joined(before) + seq![' ']
            + effect_text(a.captures[k - 1])));
    }
}

/// The words of the capture effects read back as the effects.
pub proof fn effects_read_back(a: ArityModel, k: nat)
    requires
        k <= a.captures.len(),
        a.wf(),
        a.normal(),
        plain_captures(a),
    ensures
        effects_of(effect_words(a), k, a.pops) == Some(a.captures.take(k as int)),
    decreases k,
{
    if k == 0 {
        assert(a.captures.take(0) =~= Seq::empty());
    } else {
        effects_read_back(a, (k - 1) as nat);
        let e = a.captures[k - 1];
        assert(capture_name(e.name));
        effect_reads_back(e, a.pops);
        assert(effect_words(a)[k - 1] == effect_text(e));
        assert(a.captures.take(k - 1).push(e) =~= a.captures.take(k as int));
    }
}

/// The text form of an effect reads back as the effect. This holds of every
/// well-formed effect whose dependencies name slots of unknown type and whose names can
/// be read: a name of a capture variable among the types is plain, and the name of a
/// variable in a capture effect is not empty, does not start with `>`, and holds no
/// space and no colon.
pub proof fn text_reads_back(a: ArityModel)
    requires
        a.wf(),
        a.normal(),
        a.pops.len() <= usize::MAX,
        plain_pushes(a),
        plain_captures(a),
    ensures
        parsed_arity(arity_text(a)) == Some(a),
{
    let text = arity_text(a);
    let head = head_text(a);
    let words = head_words(a);
    let comma = head.len() as int;
    head_is_joined(a, a.pops.len());
    assert(words.subrange(0, words.len() as int) =~= words);
    head_words_are_proper(a);
    joined_is_free_of(words, ',');
    let tail = captures_text(a.captures, a.captures.len());
    assert(text =~= head + tail);
    assert forall|i: int| 0 <= i < comma implies #[trigger] text[i] != ',' by {
        assert(text[i] == head[i]);
    }
    if a.captures.len() == 0 {
        assert(tail =~= Seq::<char>::empty());
        assert(text =~= head);
    } else {
        captures_are_joined(a, a.captures.len());
        assert(text[comma] == tail[0]);
    }
    first_of_skips(text, 0, comma, text.len() as int, ',');
    assert(text.subrange(0, comma) =~= head);
    joined_words_split(text, 0, comma, words);
    dash_is_found(a, 0);
    pops_read_back(a, a.pops.len());
    assert(a.pops.take(a.pops.len() as int) =~= a.pops);
    pushes_read_back(a, a.pushes.len());
    assert(a.pushes.take(a.pushes.len() as int) =~= a.pushes);
    if a.captures.len() == 0 {
        assert(a.captures =~= Seq::empty());
    } else {
        let names = effect_words(a);
        let to = text.len() as int;
        assert(names.take(names.len() as int) =~= names);
        assert(text[comma + 1] == tail[1]);
        assert(first_of(text, comma + 1, to, ' ') == comma + 1);
        assert(text.subrange(comma + 2, to) =~= joined(names)) by {
            assert(text.subrange(comma + 2, to) =~= tail.subrange(2, tail.len() as int));
        }
        assert(proper_words(names)) by {
            assert forall|i: int| 0 <= i < names.len() implies (#[trigger] names[i]).len() > 0
                && free_of(names[i], 0, names[i].len() as int, ' ') by {
                assert(capture_name(a.captures[i].name));
                effect_reads_back(a.captures[i], a.pops);
            }
        }
        joined_words_split(text, comma + 2, to, names);
        assert(words_of(text, comma + 1, to) == names);
        effects_read_back(a, a.captures.len());
        assert(a.captures.take(a.captures.len() as int) =~= a.captures);
    }
}

} // verus!
