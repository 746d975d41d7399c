//! Lexemes come out in the order they were written, and none overlaps the next.
use vstd::prelude::*;
use crate::lang::source_location::{crawled, location_at, location_at_is_bounded};
use crate::lang::number::Number;
use crate::tokenizer::{
    flushed, scan_end, scan_from, scan_start, scan_step, scanned, tokenized, Placed, ScanState,
};

verus! {

/// Every lexeme starts no later than it ends, and ends before the next one starts.
pub open spec fn ordered(out: Seq<Placed>) -> bool {
    &&& forall|k: int|
        0 <= k < out.len() ==> (#[trigger] out[k]).start.character <= out[k].end.character
    &&& forall|k: int, j: int|
        0 <= k < j < out.len() ==> (#[trigger] out[k]).end.character < (
        #[trigger] out[j]).start.character
}

/// Every lexeme ends before offset `limit`.
pub open spec fn ends_before(out: Seq<Placed>, limit: int) -> bool {
    forall|k: int| 0 <= k < out.len() ==> (#[trigger] out[k]).end.character < limit
}

/// What holds of the lexer before it reads the character at offset `i`.
pub open spec fn in_step(text: Seq<char>, i: int, state: ScanState, out: Seq<Placed>) -> bool {
    &&& ordered(out)
    &&& 0 <= i <= text.len()
    &&& match state {
        ScanState::Normal { start, word } => word.len() <= i && ends_before(out, i - word.len())
            && (i < text.len() || word.len() > 0 ==> start == location_at(
            text,
            (i - word.len()) as nat,
        )),
        ScanState::Text { start, .. } => start.character < i && ends_before(
            out,
            start.character as int,
        ),
        _ => ends_before(out, i),
    }
}

/// One more lexeme after the others keeps them in order.
proof fn push_keeps_order(out: Seq<Placed>, t: Placed, limit: int)
    requires
        ordered(out),
        ends_before(out, limit),
        limit <= t.start.character <= t.end.character,
    ensures
        ordered(out.push(t)),
        ends_before(out.push(t), t.end.character + 1),
{
    let next = out.push(t);
    assert forall|k: int| 0 <= k < next.len() implies (#[trigger] next[k]).start.character
        <= next[k].end.character by {
        if k < out.len() {
            assert(next[k] == out[k]);
        }
    }
    assert forall|k: int, j: int| 0 <= k < j < next.len() implies (#[trigger] next[k]).end.character
        < (#[trigger] next[j]).start.character by {
        assert(next[k] == out[k]);
        if j < out.len() {
            assert(next[j] == out[j]);
        }
    }
    assert forall|k: int| 0 <= k < next.len() implies (#[trigger] next[k]).end.character
        < t.end.character + 1 by {
        if k < out.len() {
            assert(next[k] == out[k]);
        }
    }
}

/// A larger limit bounds what a smaller one bounds.
proof fn ends_before_grows(out: Seq<Placed>, a: int, b: int)
    requires
        ends_before(out, a),
        a <= b,
    ensures
        ends_before(out, b),
{
}

/// Reading one character keeps the lexemes in order.
pub proof fn step_keeps_order(text: Seq<char>, i: int, state: ScanState, out: Seq<Placed>)
    requires
        in_step(text, i, state, out),
        i < text.len(),
        text.len() <= usize::MAX,
    ensures
        match scan_step(state, out, crawled(text, i).0, crawled(text, i).1, crawled(text, i).2) {
            Ok((Some(next), done)) => in_step(text, i + 1, next, done),
            Ok((None, done)) => ordered(done),
            Err(_) => true,
        },
{
    let c = crawled(text, i).0;
    let p = crawled(text, i).2;
    location_at_is_bounded(text, i as nat);
    location_at_is_bounded(text, (i + 1) as nat);
    if i > 0 {
        location_at_is_bounded(text, (i - 1) as nat);
    }
    match state {
        ScanState::Normal { start, word } => {
            location_at_is_bounded(text, (i - word.len()) as nat);
            let flushed_out = flushed(out, start, word, p.prev);
            if word.len() > 0 {
                let t = Placed {
                    value: crate::tokenizer::LexemeModel::Word(word),
                    start,
                    end: p.prev->0,
                };
                push_keeps_order(out, t, i - word.len());
                assert(flushed_out == out.push(t));
                assert(ends_before(flushed_out, i));
            } else {
                assert(flushed_out == out);
                assert(ends_before(flushed_out, i));
            }
            assert(ordered(flushed_out));
            match crate::lang::symbol::symbol_of(c) {
                Some(sym) => {
                    let t = Placed {
                        value: crate::tokenizer::LexemeModel::Symbol(sym),
                        start: p.current,
                        end: p.current,
                    };
                    push_keeps_order(flushed_out, t, i);
                },
                None => {
                    ends_before_grows(flushed_out, i, i + 1);
                    ends_before_grows(out, i - word.len(), i - word.len());
                },
            }
        },
        ScanState::Text { start, word, delimiter, escape } => {
            if escape is None && crate::tokenizer::closes(c, delimiter) {
                let t = Placed {
                    value: crate::tokenizer::LexemeModel::String(word),
                    start,
                    end: p.current,
                };
                push_keeps_order(out, t, start.character as int);
            }
        },
        _ => {
            ends_before_grows(out, i, i + 1);
        },
    }
}

/// The end of the text keeps the lexemes in order.
pub proof fn end_keeps_order(text: Seq<char>, state: ScanState, out: Seq<Placed>)
    requires
        in_step(text, text.len() as int, state, out),
        0 < text.len() <= usize::MAX,
    ensures
        match scan_end(state, out, location_at(text, (text.len() - 1) as nat)) {
            Ok(done) => ordered(done),
            Err(_) => true,
        },
{
    location_at_is_bounded(text, (text.len() - 1) as nat);
    match state {
        ScanState::Normal { start, word } => {
            if word.len() > 0 {
                location_at_is_bounded(text, (text.len() - word.len()) as nat);
                let t = Placed {
                    value: crate::tokenizer::LexemeModel::Word(word),
                    start,
                    end: location_at(text, (text.len() - 1) as nat),
                };
                push_keeps_order(out, t, text.len() - word.len());
            }
        },
        _ => {},
    }
}

/// Running the lexer from a state that holds its lexemes in order gives them in order.
pub proof fn scan_from_is_ordered(text: Seq<char>, i: int, state: ScanState, out: Seq<Placed>)
    requires
        in_step(text, i, state, out),
        0 < text.len() <= usize::MAX,
    ensures
        match scan_from(text, i, state, out) {
            Ok(done) => ordered(done),
            Err(_) => true,
        },
    decreases text.len() - i,
{
    if i >= text.len() {
        end_keeps_order(text, state, out);
    } else {
        step_keeps_order(text, i, state, out);
        let step = crawled(text, i);
        match scan_step(state, out, step.0, step.1, step.2) {
            Ok((Some(next), done)) => {
                scan_from_is_ordered(text, i + 1, next, done);
            },
            _ => {},
        }
    }
}

/// The lexemes of a text come in the order they were written: each starts no later
/// than it ends, and ends before the next one starts.
pub proof fn lexemes_are_ordered(text: Seq<char>)
    requires
        text.len() <= usize::MAX,
    ensures
        match scanned(text) {
            Ok(done) => ordered(done),
            Err(_) => true,
        },
{
    if text.len() > 0 {
        let start = scan_start(text);
        let none = Seq::<Placed>::empty();
        assert(ordered(none));
        assert(in_step(text, 0, start, none));
        scan_from_is_ordered(text, 0, start, none);
    }
}

/// The tokens of a text come in the order they were written, whatever the words read
/// as: each starts no later than it ends, and ends before the next one starts.
pub proof fn tokens_are_ordered(text: Seq<char>, readings: Seq<Option<Number>>)
    requires
        text.len() <= usize::MAX,
    ensures
        match scanned(text) {
            Ok(done) => {
                let tokens = tokenized(done, readings);
                &&& tokens.len() == done.len()
                &&& forall|k: int|
                    0 <= k < tokens.len() ==> (#[trigger] tokens[k]).start.character
                        <= tokens[k].end.character
                &&& forall|k: int, j: int|
                    0 <= k < j < tokens.len() ==> (#[trigger] tokens[k]).end.character < (
                    #[trigger] tokens[j]).start.character
            },
            Err(_) => true,
        },
{
    lexemes_are_ordered(text);
    match scanned(text) {
        Ok(done) => {
            let tokens = tokenized(done, readings);
            assert forall|k: int| 0 <= k < tokens.len() implies (#[trigger] tokens[k]).start.character
                <= tokens[k].end.character by {
                assert(done[k].start.character <= done[k].end.character);
            }
            assert forall|k: int, j: int| 0 <= k < j < tokens.len() implies (
            #[trigger] tokens[k]).end.character < (#[trigger] tokens[j]).start.character by {
                assert(done[k].end.character < done[j].start.character);
            }
        },
        Err(_) => {},
    }
}

} // verus!
