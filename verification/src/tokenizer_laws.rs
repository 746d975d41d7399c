//! White space at the end of a text adds at most a line end to its lexemes, and changes
//! nothing in the module the text spells.
use vstd::prelude::*;
use crate::lang::number::Number;
use crate::lang::source_location::{crawled, location_at};
use crate::lang::symbol::Symbol;
use crate::parser::parsed;
use crate::parser_laws::{trailing_line_ends_are_ignored, with_line_ends};
use crate::tokenizer::{
    scan_end, scan_from, scan_start, scan_step, scanned, tokenized, word_texts, words_before,
    LexemeModel, Placed, ScanState, TokenModel,
};

verus! {

/// A space or a line feed.
pub open spec fn is_blank(c: char) -> bool {
    c == ' ' || c == '\n'
}

/// `now` is `before`, or `before` with a line end behind it.
pub open spec fn at_most_a_line_end(before: Seq<Placed>, now: Seq<Placed>) -> bool {
    now == before || (now.len() == before.len() + 1 && now.drop_last() == before
        && now.last().value == LexemeModel::Symbol(Symbol::LineEnd))
}

/// Positions in a text do not depend on what follows them.
pub proof fn location_of_prefix(text: Seq<char>, c: char, k: nat)
    requires
        k <= text.len(),
    ensures
        location_at(text.push(c), k) == location_at(text, k),
    decreases k,
{
    if k > 0 {
        location_of_prefix(text, c, (k - 1) as nat);
    }
}

/// Before the last character of a text, the lexer reads the same in the longer text.
proof fn crawled_of_prefix(text: Seq<char>, c: char, i: int)
    requires
        0 <= i < text.len() - 1,
    ensures
        crawled(text.push(c), i) == crawled(text, i),
{
    location_of_prefix(text, c, i as nat);
    location_of_prefix(text, c, (i + 1) as nat);
    if i > 0 {
        location_of_prefix(text, c, (i - 1) as nat);
    }
}

/// From the last character of a text on, a blank behind the text adds at most a line end.
proof fn last_step(text: Seq<char>, c: char, state: ScanState, out: Seq<Placed>)
    requires
        text.len() > 0,
        is_blank(c),
        scan_from(text, text.len() - 1, state, out) is Ok,
    ensures
        scan_from(text.push(c), text.len() - 1, state, out) is Ok,
        at_most_a_line_end(
            scan_from(text, text.len() - 1, state, out)->Ok_0,
            scan_from(text.push(c), text.len() - 1, state, out)->Ok_0,
        ),
{
    let n = text.len() as int;
    let more = text.push(c);
    location_of_prefix(text, c, (n - 1) as nat);
    location_of_prefix(text, c, n as nat);
    if n > 1 {
        location_of_prefix(text, c, (n - 2) as nat);
    }
    reveal_with_fuel(scan_from, 4);
    let a = crawled(text, n - 1);
    let b = crawled(more, n - 1);
    let z = crawled(more, n);
    assert(a.0 == b.0);
    assert(a.2.prev == b.2.prev);
    assert(a.2.current == b.2.current);
    assert(a.1 is None);
    assert(b.1 == Some(c));
    assert(a.2.next is None);
    assert(b.2.next == Some(location_at(more, n as nat)));
    assert(z.0 == c);
    assert(z.1 is None);
    assert(z.2.next is None);
    assert(z.2.prev == Some(a.2.current));
    let before = scan_from(text, n - 1, state, out)->Ok_0;
    let now = scan_from(more, n - 1, state, out);
    match scan_step(state, out, b.0, b.1, b.2) {
        Ok((Some(next), done)) => {
            match scan_step(next, done, z.0, z.1, z.2) {
                Ok((Some(last), all)) => {
                    assert(now == scan_end(last, all, location_at(more, n as nat)));
                    assert(now is Ok);
                    let got = now->Ok_0;
                    if got != before {
                        assert(got =~= before.push(got.last()));
                        assert(got.drop_last() =~= before);
                    }
                },
                Ok((None, all)) => {
                    assert(now == Ok::<Seq<Placed>, crate::tokenize_error::TokenizeError>(all));
                },
                Err(_) => {},
            }
        },
        _ => {},
    }
}

/// A blank behind a text adds at most a line end to what the lexer gives from any
/// state before the end of the text.
proof fn scan_of_prefix(text: Seq<char>, c: char, i: int, state: ScanState, out: Seq<Placed>)
    requires
        0 <= i < text.len(),
        is_blank(c),
        scan_from(text, i, state, out) is Ok,
    ensures
        scan_from(text.push(c), i, state, out) is Ok,
        at_most_a_line_end(
            scan_from(text, i, state, out)->Ok_0,
            scan_from(text.push(c), i, state, out)->Ok_0,
        ),
    decreases text.len() - i,
{
    if i == text.len() - 1 {
        last_step(text, c, state, out);
    } else {
        crawled_of_prefix(text, c, i);
        let step = crawled(text, i);
        location_of_prefix(text, c, (i + 1) as nat);
        match scan_step(state, out, step.0, step.1, step.2) {
            Ok((Some(next), done)) => {
                scan_of_prefix(text, c, i + 1, next, done);
            },
            _ => {},
        }
    }
}

/// A blank behind a text that has lexemes adds at most a line end to them.
pub proof fn blank_adds_at_most_a_line_end(text: Seq<char>, c: char)
    requires
        is_blank(c),
        scanned(text) is Ok,
    ensures
        scanned(text.push(c)) is Ok,
        at_most_a_line_end(scanned(text)->Ok_0, scanned(text.push(c))->Ok_0),
{
    let more = text.push(c);
    if text.len() == 0 {
        reveal_with_fuel(scan_from, 3);
        let z = crawled(more, 0);
        assert(z.0 == c);
        assert(z.1 is None);
        assert(z.2.next is None);
        let start = scan_start(more);
        let none = Seq::<Placed>::empty();
        let got = scanned(more);
        assert(got is Ok);
        if got->Ok_0 != none {
            assert(got->Ok_0 =~= none.push(got->Ok_0.last()));
            assert(got->Ok_0.drop_last() =~= none);
        }
    } else {
        assert(scan_start(more) == scan_start(text));
        scan_of_prefix(text, c, 0, scan_start(text), Seq::empty());
    }
}

/// A line end behind the lexemes does not change which words there are.
pub proof fn words_of_more(before: Seq<Placed>, now: Seq<Placed>, k: nat)
    requires
        at_most_a_line_end(before, now),
        k <= before.len(),
    ensures
        words_before(now, k) == words_before(before, k),
        word_texts(now, k) == word_texts(before, k),
    decreases k,
{
    if k > 0 {
        words_of_more(before, now, (k - 1) as nat);
        assert(now[k - 1] == before[k - 1]) by {
            if now != before {
                assert(now.drop_last()[k - 1] == before[k - 1]);
            }
        }
    }
}

/// A blank behind a text does not change the module the text spells: the text has the
/// same words, and with the same readings of the words it spells the same module.
pub proof fn trailing_blank_is_ignored(text: Seq<char>, c: char, readings: Seq<Option<Number>>)
    requires
        is_blank(c),
        scanned(text) is Ok,
        parsed(tokenized(scanned(text)->Ok_0, readings)) is Ok,
    ensures
        scanned(text.push(c)) is Ok,
        word_texts(scanned(text.push(c))->Ok_0, scanned(text.push(c))->Ok_0.len()) == word_texts(
            scanned(text)->Ok_0,
            scanned(text)->Ok_0.len(),
        ),
        parsed(tokenized(scanned(text.push(c))->Ok_0, readings)) == parsed(
            tokenized(scanned(text)->Ok_0, readings),
        ),
{
    blank_adds_at_most_a_line_end(text, c);
    let before = scanned(text)->Ok_0;
    let now = scanned(text.push(c))->Ok_0;
    words_of_more(before, now, before.len());
    let toks = tokenized(before, readings);
    let more = tokenized(now, readings);
    if now != before {
        assert(now.drop_last() == before);
        assert forall|i: int| 0 <= i < toks.len() implies #[trigger] more[i] == toks[i] by {
            assert(now[i] == before[i]) by {
                assert(now.drop_last()[i] == before[i]);
            }
            words_of_more(before, now, i as nat);
        }
        assert(more[before.len() as int].value == TokenModel::Symbol(Symbol::LineEnd));
        assert(with_line_ends(toks, more));
        trailing_line_ends_are_ignored(toks, more);
    }
}

/// Any white space behind a text does not change the module the text spells.
pub proof fn trailing_blanks_are_ignored(
    text: Seq<char>,
    blanks: Seq<char>,
    readings: Seq<Option<Number>>,
)
    requires
        forall|i: int| 0 <= i < blanks.len() ==> is_blank(#[trigger] blanks[i]),
        scanned(text) is Ok,
        parsed(tokenized(scanned(text)->Ok_0, readings)) is Ok,
    ensures
        scanned(text + blanks) is Ok,
        word_texts(scanned(text + blanks)->Ok_0, scanned(text + blanks)->Ok_0.len()) == word_texts(
            scanned(text)->Ok_0,
            scanned(text)->Ok_0.len(),
        ),
        parsed(tokenized(scanned(text + blanks)->Ok_0, readings)) == parsed(
            tokenized(scanned(text)->Ok_0, readings),
        ),
    decreases blanks.len(),
{
    if blanks.len() == 0 {
        assert(text + blanks =~= text);
    } else {
        let fewer = blanks.drop_last();
        assert forall|i: int| 0 <= i < fewer.len() implies is_blank(#[trigger] fewer[i]) by {
            assert(fewer[i] == blanks[i]);
        }
        trailing_blanks_are_ignored(text, fewer, readings);
        trailing_blank_is_ignored(text + fewer, blanks.last(), readings);
        assert((text + fewer).push(blanks.last()) =~= text + blanks);
    }
}

} // verus!
