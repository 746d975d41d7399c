//! The lexer: a state machine over the characters of source text.
//!
//! Scanning yields positioned lexemes. Words are classified afterwards, once the host has
//! tried to read each of them as a number.
use vstd::prelude::*;
use crate::convert::{hex_char_to_u8, hex_value};
use crate::lang::number::Number;
use crate::lang::source_location::{
    crawled, location_at, SourceCrawler, SourceLocation, SourcePositions, SourceRange,
};
use crate::lang::symbol::{symbol_of, Symbol};
use crate::lang::token::{ParsedToken, Token};
use crate::text::{chars_of, string_of};
use crate::tokenize_error::{EscapeSequenceError, TokenizeError};

verus! {

/// Which quote opened a string literal.
#[derive(Copy, Clone, PartialEq, Eq, Debug, Structural)]
pub enum StringDelimiter {
    Single,
    Double,
}

/// The value is a Unicode scalar value: a code point that is not a surrogate.
pub open spec fn is_scalar(v: u32) -> bool {
    v <= 0xD7FF || (0xE000 <= v && v <= 0x10FFFF)
}

/// `char::from_u32`: the character with the given scalar value, and nothing for a value
/// that is no scalar value.
pub assume_specification[ char::from_u32 ](i: u32) -> (r: Option<char>)
    ensures
        is_scalar(i) ==> r == Some(i as char),
        !is_scalar(i) ==> r is None,
;

/// Progress through a `\u` escape.
#[derive(Copy, Clone, PartialEq, Eq, Debug, Structural)]
pub struct UnicodeEscapeState {
    pub waiting_for_bracket: bool,
    pub value: u32,
    pub digit_count: u8,
}

/// What one step through an escape sequence gives: the state to go on with, if the
/// sequence goes on, and the character it produced, if it produced one.
pub type EscapeStep<S> = Result<(Option<S>, Option<char>), EscapeSequenceError>;

/// One more than the largest value that the given number of hex digits can spell.
pub open spec fn unicode_limit(digits: u8) -> int {
    if digits == 0 {
        1
    } else if digits == 1 {
        0x10
    } else if digits == 2 {
        0x100
    } else if digits == 3 {
        0x1000
    } else if digits == 4 {
        0x1_0000
    } else if digits == 5 {
        0x10_0000
    } else {
        0x100_0000
    }
}

/// The character a finished `\u` escape stands for.
pub open spec fn unicode_character(s: UnicodeEscapeState) -> Result<char, EscapeSequenceError> {
    if s.digit_count == 0 {
        Err(EscapeSequenceError::EmptyUnicode)
    } else if is_scalar(s.value) {
        Ok(s.value as char)
    } else {
        Err(EscapeSequenceError::OutOfUnicodeRange)
    }
}

/// One step through a `\u` escape.
pub open spec fn unicode_step(s: UnicodeEscapeState, c: char) -> EscapeStep<UnicodeEscapeState> {
    if c == '}' {
        if !s.waiting_for_bracket {
            Err(EscapeSequenceError::InvalidUnicode)
        } else {
            match unicode_character(s) {
                Ok(ch) => Ok((None, Some(ch))),
                Err(e) => Err(e),
            }
        }
    } else if s.digit_count == 0 && c == '{' {
        Ok(
            (
                Some(
                    UnicodeEscapeState {
                        waiting_for_bracket: true,
                        value: s.value,
                        digit_count: s.digit_count,
                    },
                ),
                None,
            ),
        )
    } else {
        match hex_value(c) {
            None => Err(EscapeSequenceError::InvalidUnicode),
            Some(d) => if s.digit_count >= 6 {
                Err(EscapeSequenceError::TooManyUnicodeDigits)
            } else {
                let s2 = UnicodeEscapeState {
                    waiting_for_bracket: s.waiting_for_bracket,
                    value: (s.value * 16 + d) as u32,
                    digit_count: (s.digit_count + 1) as u8,
                };
                if s2.digit_count == 4 && !s2.waiting_for_bracket {
                    match unicode_character(s2) {
                        Ok(ch) => Ok((None, Some(ch))),
                        Err(e) => Err(e),
                    }
                } else {
                    Ok((Some(s2), None))
                }
            },
        }
    }
}

impl UnicodeEscapeState {
    /// The digits read so far fit the value: at most six, four bits each.
    pub open spec fn wf(self) -> bool {
        self.digit_count <= 6 && self.value < unicode_limit(self.digit_count)
    }

    /// The state right after `\u`.
    pub fn new() -> (r: UnicodeEscapeState)
        ensures
            r == (UnicodeEscapeState { waiting_for_bracket: false, value: 0, digit_count: 0 }),
            r.wf(),
    {
        UnicodeEscapeState { waiting_for_bracket: false, value: 0, digit_count: 0 }
    }

    /// The character the escape stands for so far.
    pub fn get_character(&self) -> (r: Result<char, EscapeSequenceError>)
        ensures
            r == unicode_character(*self),
    {
        if self.digit_count == 0 {
            return Err(EscapeSequenceError::EmptyUnicode);
        }
        match char::from_u32(self.value) {
            Some(v) => {
                Ok(v)
            },
            None => Err(EscapeSequenceError::OutOfUnicodeRange),
        }
    }

    /// What one more character does.
    pub fn next(self, c: char) -> (r: EscapeStep<UnicodeEscapeState>)
        requires
            self.wf(),
        ensures
            r == unicode_step(self, c),
            r is Ok && r->Ok_0.0 is Some ==> r->Ok_0.0->0.wf(),
    {
        let mut s = self;
        if c == '}' {
            if !s.waiting_for_bracket {
                return Err(EscapeSequenceError::InvalidUnicode);
            }
            return match s.get_character() {
                Ok(ch) => Ok((None, Some(ch))),
                Err(e) => Err(e),
            };
        }
        if s.digit_count == 0 && c == '{' {
            s.waiting_for_bracket = true;
        } else {
            let digit = match hex_char_to_u8(c) {
                Some(d) => d,
                None => {
                    return Err(EscapeSequenceError::InvalidUnicode);
                },
            };
            if s.digit_count >= 6 {
                return Err(EscapeSequenceError::TooManyUnicodeDigits);
            }
            s.digit_count += 1;
            s.value = (s.value * 16) + digit as u32;
        }
        if s.digit_count == 4 && !s.waiting_for_bracket {
            return match s.get_character() {
                Ok(ch) => Ok((None, Some(ch))),
                Err(e) => Err(e),
            };
        }
        Ok((Some(s), None))
    }
}

/// Progress through an escape sequence in a string literal.
#[derive(Copy, Clone, PartialEq, Eq, Debug, Structural)]
pub enum EscapeState {
    /// Right after the backslash.
    EscapeNext,
    /// In a `\x` escape, with the first digit if it was read.
    Hex(Option<char>),
    /// In a `\u` escape.
    Unicode(UnicodeEscapeState),
}

/// One step through an escape sequence.
pub open spec fn escape_step(s: EscapeState, c: char) -> EscapeStep<EscapeState> {
    match s {
        EscapeState::EscapeNext => if c == '\\' || c == '"' || c == '\'' {
            Ok((None, Some(c)))
        } else if c == 'n' {
            Ok((None, Some('\n')))
        } else if c == 'r' {
            Ok((None, Some('\r')))
        } else if c == 't' {
            Ok((None, Some('\t')))
        } else if c == '0' {
            Ok((None, Some('\0')))
        } else if c == '\n' {
            Ok((None, None))
        } else if c == 'x' {
            Ok((Some(EscapeState::Hex(None)), None))
        } else if c == 'u' {
            Ok(
                (
                    Some(
                        EscapeState::Unicode(
                            UnicodeEscapeState {
                                waiting_for_bracket: false,
                                value: 0,
                                digit_count: 0,
                            },
                        ),
                    ),
                    None,
                ),
            )
        } else {
            Err(EscapeSequenceError::InvalidCharacter)
        },
        EscapeState::Hex(None) => Ok((Some(EscapeState::Hex(Some(c))), None)),
        EscapeState::Hex(Some(prev)) => match (hex_value(prev), hex_value(c)) {
            (Some(high), Some(low)) => Ok((None, Some((high * 16 + low) as char))),
            _ => Err(EscapeSequenceError::InvalidHex),
        },
        EscapeState::Unicode(x) => match unicode_step(x, c) {
            Ok((next, ch)) => Ok(
                (
                    match next {
                        Some(n) => Some(EscapeState::Unicode(n)),
                        None => None,
                    },
                    ch,
                ),
            ),
            Err(e) => Err(e),
        },
    }
}

impl EscapeState {
    /// A `\u` escape in progress holds digits that fit its value.
    pub open spec fn wf(self) -> bool {
        match self {
            EscapeState::Unicode(x) => x.wf(),
            _ => true,
        }
    }

    /// What one more character does.
    pub fn next(self, c: char) -> (r: EscapeStep<EscapeState>)
        requires
            self.wf(),
        ensures
            r == escape_step(self, c),
            r is Ok && r->Ok_0.0 is Some ==> r->Ok_0.0->0.wf(),
    {
        match self {
            EscapeState::EscapeNext => {
                if c == '\\' || c == '"' || c == '\'' {
                    Ok((None, Some(c)))
                } else if c == 'n' {
                    Ok((None, Some('\n')))
                } else if c == 'r' {
                    Ok((None, Some('\r')))
                } else if c == 't' {
                    Ok((None, Some('\t')))
                } else if c == '0' {
                    Ok((None, Some('\0')))
                } else if c == '\n' {
                    Ok((None, None))
                } else if c == 'x' {
                    Ok((Some(EscapeState::Hex(None)), None))
                } else if c == 'u' {
                    Ok((Some(EscapeState::Unicode(UnicodeEscapeState::new())), None))
                } else {
                    Err(EscapeSequenceError::InvalidCharacter)
                }
            },
            EscapeState::Hex(x) => match x {
                Some(prev) => {
                    match (hex_char_to_u8(prev), hex_char_to_u8(c)) {
                        (Some(high), Some(low)) => {
                            let v: u8 = high * 16 + low;
                            Ok((None, Some(v as char)))
                        },
                        _ => Err(EscapeSequenceError::InvalidHex),
                    }
                },
                None => Ok((Some(EscapeState::Hex(Some(c))), None)),
            },
            EscapeState::Unicode(x) => {
                match x.next(c) {
                    Ok((next, ch)) => Ok(
                        (
                            match next {
                                Some(n) => Some(EscapeState::Unicode(n)),
                                None => None,
                            },
                            ch,
                        ),
                    ),
                    Err(e) => Err(e),
                }
            },
        }
    }
}

/// Progress through a block comment.
#[derive(Copy, Clone, PartialEq, Eq, Debug, Structural)]
pub enum RangeCommentParseStage {
    /// At the slash that opens the comment; the star follows.
    Start,
    Inner,
    /// After a star: a slash now closes the comment.
    NextSlashEnds,
}

/// One step through a block comment; nothing when the comment is closed.
pub open spec fn comment_step(s: RangeCommentParseStage, c: char) -> Option<
    RangeCommentParseStage,
> {
    match s {
        RangeCommentParseStage::Start => Some(RangeCommentParseStage::Inner),
        RangeCommentParseStage::Inner => if c == '*' {
            Some(RangeCommentParseStage::NextSlashEnds)
        } else {
            Some(RangeCommentParseStage::Inner)
        },
        RangeCommentParseStage::NextSlashEnds => if c == '*' {
            Some(RangeCommentParseStage::NextSlashEnds)
        } else if c == '/' {
            None
        } else {
            Some(RangeCommentParseStage::Inner)
        },
    }
}

impl RangeCommentParseStage {
    /// What one more character does.
    pub fn next(self, c: char) -> (r: Option<RangeCommentParseStage>)
        requires
            self is Start ==> c == '*',
        ensures
            r == comment_step(self, c),
    {
        match self {
            RangeCommentParseStage::Start => Some(RangeCommentParseStage::Inner),
            RangeCommentParseStage::Inner => {
                if c == '*' {
                    Some(RangeCommentParseStage::NextSlashEnds)
                } else {
                    Some(RangeCommentParseStage::Inner)
                }
            },
            RangeCommentParseStage::NextSlashEnds => {
                if c == '*' {
                    Some(RangeCommentParseStage::NextSlashEnds)
                } else if c == '/' {
                    None
                } else {
                    Some(RangeCommentParseStage::Inner)
                }
            },
        }
    }
}

/// A block comment being skipped, and where it opened.
#[derive(Copy, Clone, PartialEq, Eq, Debug, Structural)]
pub struct RangeCommentParseState {
    pub start: SourceLocation,
    pub stage: RangeCommentParseStage,
}

/// A string literal being read.
#[derive(Debug)]
pub struct StringParseState {
    pub start: SourceLocation,
    pub word: Vec<char>,
    pub delimiter: StringDelimiter,
    pub escape: Option<EscapeState>,
}

/// Plain text being read: the word that is building up, and where it started.
#[derive(Debug)]
pub struct NormalParseState {
    pub start: SourceLocation,
    pub word: Vec<char>,
}

/// The state of the lexer.
#[derive(Debug)]
pub enum ParseState {
    String(StringParseState),
    Normal(NormalParseState),
    LineComment,
    RangeComment(RangeCommentParseState),
}

/// The mathematical value of a [`ParseState`].
pub enum ScanState {
    Text { start: SourceLocation, word: Seq<char>, delimiter: StringDelimiter, escape: Option<EscapeState> },
    Normal { start: SourceLocation, word: Seq<char> },
    LineComment,
    RangeComment(RangeCommentParseState),
}

impl View for ParseState {
    type V = ScanState;

    open spec fn view(&self) -> ScanState {
        match *self {
            ParseState::String(s) => ScanState::Text {
                start: s.start,
                word: s.word@,
                delimiter: s.delimiter,
                escape: s.escape,
            },
            ParseState::Normal(s) => ScanState::Normal { start: s.start, word: s.word@ },
            ParseState::LineComment => ScanState::LineComment,
            ParseState::RangeComment(s) => ScanState::RangeComment(s),
        }
    }
}

/// A piece of source text: a string literal, a word or a symbol.
#[derive(Debug, PartialEq)]
pub enum Lexeme {
    String(String),
    Word(String),
    Symbol(Symbol),
}

/// A lexeme and where it was written: `loc.start` is the position of its first
/// character, `loc.end` that of its last.
#[derive(Debug)]
pub struct ParsedLexeme {
    pub value: Lexeme,
    pub loc: SourceRange,
}

/// The mathematical value of a [`Lexeme`].
pub enum LexemeModel {
    String(Seq<char>),
    Word(Seq<char>),
    Symbol(Symbol),
}

/// The mathematical value of a [`ParsedLexeme`].
pub struct Placed {
    pub value: LexemeModel,
    pub start: SourceLocation,
    pub end: SourceLocation,
}

impl View for ParsedLexeme {
    type V = Placed;

    open spec fn view(&self) -> Placed {
        Placed {
            value: match self.value {
                Lexeme::String(s) => LexemeModel::String(s@),
                Lexeme::Word(s) => LexemeModel::Word(s@),
                Lexeme::Symbol(s) => LexemeModel::Symbol(s),
            },
            start: self.loc.start,
            end: self.loc.end,
        }
    }
}

/// The values of a list of positioned lexemes.
pub open spec fn placed(v: Seq<ParsedLexeme>) -> Seq<Placed> {
    v.map_values(|l: ParsedLexeme| l@)
}

/// The output with the pending word added, if there is one; it ends at `end`.
pub open spec fn flushed(
    out: Seq<Placed>,
    start: SourceLocation,
    word: Seq<char>,
    end: Option<SourceLocation>,
) -> Seq<Placed> {
    if word.len() == 0 {
        out
    } else {
        out.push(
            Placed {
                value: LexemeModel::Word(word),
                start,
                end: match end {
                    Some(e) => e,
                    None => start,
                },
            },
        )
    }
}

/// Where the next word starts after the character at `p` ended the pending one.
pub open spec fn restart(start: SourceLocation, p: SourcePositions) -> SourceLocation {
    match p.next {
        Some(n) => n,
        None => start,
    }
}

/// Whether the character closes a string opened with the delimiter.
pub open spec fn closes(c: char, d: StringDelimiter) -> bool {
    (c == '"' && d == StringDelimiter::Double) || (c == '\'' && d == StringDelimiter::Single)
}

/// What one character does to the lexer: the state to go on with, or none when the text
/// is known to be at its end, and the output so far.
pub open spec fn scan_step(
    state: ScanState,
    out: Seq<Placed>,
    c: char,
    following: Option<char>,
    p: SourcePositions,
) -> Result<(Option<ScanState>, Seq<Placed>), TokenizeError> {
    match state {
        ScanState::Text { start, word, delimiter, escape } => match escape {
            Some(e) => match escape_step(e, c) {
                Ok((next, ch)) => Ok(
                    (
                        Some(
                            ScanState::Text {
                                start,
                                word: match ch {
                                    Some(x) => word.push(x),
                                    None => word,
                                },
                                delimiter,
                                escape: next,
                            },
                        ),
                        out,
                    ),
                ),
                Err(e) => Err(TokenizeError::InvalidEscape(e, p.current)),
            },
            None => if closes(c, delimiter) {
                Ok(
                    (
                        match p.next {
                            Some(n) => Some(ScanState::Normal { start: n, word: Seq::empty() }),
                            None => None,
                        },
                        out.push(
                            Placed { value: LexemeModel::String(word), start, end: p.current },
                        ),
                    ),
                )
            } else if c == '\\' {
                Ok(
                    (
                        Some(
                            ScanState::Text {
                                start,
                                word,
                                delimiter,
                                escape: Some(EscapeState::EscapeNext),
                            },
                        ),
                        out,
                    ),
                )
            } else {
                Ok((Some(ScanState::Text { start, word: word.push(c), delimiter, escape }), out))
            },
        },
        ScanState::Normal { start, word } => {
            let done = flushed(out, start, word, p.prev);
            let fresh = restart(start, p);
            match symbol_of(c) {
                Some(sym) => Ok(
                    (
                        Some(ScanState::Normal { start: fresh, word: Seq::empty() }),
                        done.push(
                            Placed {
                                value: LexemeModel::Symbol(sym),
                                start: p.current,
                                end: p.current,
                            },
                        ),
                    ),
                ),
                None => if c == '"' {
                    Ok(
                        (
                            Some(
                                ScanState::Text {
                                    start: p.current,
                                    word: Seq::empty(),
                                    delimiter: StringDelimiter::Double,
                                    escape: None,
                                },
                            ),
                            done,
                        ),
                    )
                } else if c == '\'' {
                    Ok(
                        (
                            Some(
                                ScanState::Text {
                                    start: p.current,
                                    word: Seq::empty(),
                                    delimiter: StringDelimiter::Single,
                                    escape: None,
                                },
                            ),
                            done,
                        ),
                    )
                } else if c == '/' && following == Some('/') {
                    Ok((Some(ScanState::LineComment), done))
                } else if c == '/' && following == Some('*') {
                    Ok(
                        (
                            Some(
                                ScanState::RangeComment(
                                    RangeCommentParseState {
                                        start: p.current,
                                        stage: RangeCommentParseStage::Start,
                                    },
                                ),
                            ),
                            done,
                        ),
                    )
                } else if c == ' ' {
                    Ok((Some(ScanState::Normal { start: fresh, word: Seq::empty() }), done))
                } else {
                    Ok((Some(ScanState::Normal { start, word: word.push(c) }), out))
                },
            }
        },
        ScanState::LineComment => if c == '\n' {
            Ok(
                (
                    match p.next {
                        Some(n) => Some(ScanState::Normal { start: n, word: Seq::empty() }),
                        None => None,
                    },
                    out,
                ),
            )
        } else {
            Ok((Some(ScanState::LineComment), out))
        },
        ScanState::RangeComment(s) => match comment_step(s.stage, c) {
            Some(stage) => Ok(
                (Some(ScanState::RangeComment(RangeCommentParseState { start: s.start, stage })), out),
            ),
            None => Ok(
                (
                    match p.next {
                        Some(n) => Some(ScanState::Normal { start: n, word: Seq::empty() }),
                        None => None,
                    },
                    out,
                ),
            ),
        },
    }
}

/// What the end of the text does to the lexer, `last` being the position of the last
/// character.
pub open spec fn scan_end(state: ScanState, out: Seq<Placed>, last: SourceLocation) -> Result<
    Seq<Placed>,
    TokenizeError,
> {
    match state {
        ScanState::LineComment => Ok(out),
        ScanState::Text { start, .. } => Err(TokenizeError::UnboundedString(start)),
        ScanState::Normal { start, word } => Ok(flushed(out, start, word, Some(last))),
        ScanState::RangeComment(s) => Err(TokenizeError::UnboundedComment(s.start)),
    }
}

/// The lexer run over `text` from offset `i` on.
pub open spec fn scan_from(text: Seq<char>, i: int, state: ScanState, out: Seq<Placed>) -> Result<
    Seq<Placed>,
    TokenizeError,
>
    decreases text.len() - i,
{
    if i < 0 || i >= text.len() {
        scan_end(state, out, location_at(text, (text.len() - 1) as nat))
    } else {
        let step = crawled(text, i);
        match scan_step(state, out, step.0, step.1, step.2) {
            Err(e) => Err(e),
            Ok((None, done)) => Ok(done),
            Ok((Some(next), done)) => scan_from(text, i + 1, next, done),
        }
    }
}

/// The state the lexer starts in: a text that opens with `#!` opens with a comment.
pub open spec fn scan_start(text: Seq<char>) -> ScanState {
    if text.len() >= 2 && text[0] == '#' && text[1] == '!' {
        ScanState::LineComment
    } else {
        ScanState::Normal {
            start: SourceLocation { character: 0, line: 0, column: 0 },
            word: Seq::empty(),
        }
    }
}

/// The lexemes of a text, or why it has none.
pub open spec fn scanned(text: Seq<char>) -> Result<Seq<Placed>, TokenizeError> {
    if text.len() == 0 {
        Ok(Seq::empty())
    } else {
        scan_from(text, 0, scan_start(text), Seq::empty())
    }
}

impl StringParseState {
    /// What one more character does.
    pub fn next(
        self,
        tokens: &mut Vec<ParsedLexeme>,
        c: char,
        _next_char: Option<char>,
        loc: &SourcePositions,
    ) -> (r: Result<Option<ParseState>, TokenizeError>)
        requires
            self.escape is Some ==> self.escape->0.wf(),
        ensures
            steps_as(
                ParseState::String(self)@,
                placed(old(tokens)@),
                c,
                _next_char,
                *loc,
                r,
                placed(final(tokens)@),
            ),
            state_wf(r),
    {
        let mut s = self;
        match s.escape {
            Some(e) => match e.next(c) {
                Ok((next_escape, ch)) => {
                    s.escape = next_escape;
                    match ch {
                        Some(x) => {
                            s.word.push(x);
                        },
                        None => {},
                    }
                },
                Err(e) => {
                    return Err(TokenizeError::InvalidEscape(e, loc.current));
                },
            },
            None => {
                let closing = match s.delimiter {
                    StringDelimiter::Double => c == '"',
                    StringDelimiter::Single => c == '\'',
                };
                if closing {
                    let ghost before = placed(tokens@);
                    let text = string_of(&s.word);
                    tokens.push(
                        ParsedLexeme {
                            value: Lexeme::String(text),
                            loc: SourceRange::between(s.start, loc.current),
                        },
                    );
                    assert(placed(tokens@) =~= before.push(
                        Placed {
                            value: LexemeModel::String(s.word@),
                            start: s.start,
                            end: loc.current,
                        },
                    ));
                    return match loc.next {
                        Some(next_location) => Ok(Some(ParseState::normal(next_location))),
                        None => Ok(None),
                    };
                } else if c == '\\' {
                    s.escape = Some(EscapeState::EscapeNext);
                } else {
                    s.word.push(c);
                }
            },
        }
        Ok(Some(ParseState::String(s)))
    }
}

/// The result of an executable step is the one the model gives.
pub open spec fn steps_as(
    state: ScanState,
    out: Seq<Placed>,
    c: char,
    following: Option<char>,
    p: SourcePositions,
    r: Result<Option<ParseState>, TokenizeError>,
    after: Seq<Placed>,
) -> bool {
    match scan_step(state, out, c, following, p) {
        Err(e) => r is Err && r->Err_0 == e,
        Ok((next, done)) => r is Ok && after == done && match next {
            Some(n) => r->Ok_0 is Some && r->Ok_0->0@ == n,
            None => r->Ok_0 is None,
        },
    }
}

/// An escape sequence in progress in the resulting state is well-formed.
pub open spec fn state_wf(r: Result<Option<ParseState>, TokenizeError>) -> bool {
    r is Ok && r->Ok_0 is Some ==> r->Ok_0->0.wf()
}

impl RangeCommentParseState {
    /// What one more character does.
    pub fn next(self, c: char, loc: &SourcePositions) -> (r: Option<ParseState>)
        requires
            self.stage is Start ==> c == '*',
        ensures
            match comment_step(self.stage, c) {
                Some(stage) => r is Some && r->0@ == ScanState::RangeComment(
                    RangeCommentParseState { start: self.start, stage },
                ),
                None => match loc.next {
                    Some(n) => r is Some && r->0@ == (ScanState::Normal {
                        start: n,
                        word: Seq::empty(),
                    }),
                    None => r is None,
                },
            },
    {
        let mut s = self;
        match s.stage.next(c) {
            Some(next_stage) => {
                s.stage = next_stage;
                Some(ParseState::RangeComment(s))
            },
            None => match loc.next {
                Some(n) => Some(ParseState::normal(n)),
                None => None,
            },
        }
    }
}

impl NormalParseState {
    /// The pending word, if there is one; the state is left without a word.
    pub fn take(&mut self) -> (r: Option<Lexeme>)
        ensures
            final(self).start == old(self).start,
            final(self).word@.len() == 0,
            old(self).word@.len() == 0 ==> r is None,
            old(self).word@.len() > 0 ==> r is Some && r->0 is Word && r->0->Word_0@ == old(
                self,
            ).word@,
    {
        if self.word.len() == 0 {
            return None;
        }
        let text = string_of(&self.word);
        self.word.clear();
        Some(Lexeme::Word(text))
    }

    /// Emits the pending word, if there is one, as ending at `prev`.
    pub fn finish(&mut self, tokens: &mut Vec<ParsedLexeme>, prev: Option<SourceLocation>)
        ensures
            final(self).start == old(self).start,
            final(self).word@.len() == 0,
            placed(final(tokens)@) == flushed(
                placed(old(tokens)@),
                old(self).start,
                old(self).word@,
                prev,
            ),
    {
        let ghost before = placed(tokens@);
        match self.take() {
            Some(token) => {
                let end = match prev {
                    Some(e) => e,
                    None => self.start,
                };
                tokens.push(ParsedLexeme { value: token, loc: SourceRange::between(self.start, end) });
                assert(placed(tokens@) =~= flushed(before, old(self).start, old(self).word@, prev));
            },
            None => {},
        }
    }

    /// Ends the pending word at the character before `loc` and restarts after it.
    pub fn advance(&mut self, tokens: &mut Vec<ParsedLexeme>, loc: &SourcePositions)
        ensures
            final(self).start == restart(old(self).start, *loc),
            final(self).word@.len() == 0,
            placed(final(tokens)@) == flushed(
                placed(old(tokens)@),
                old(self).start,
                old(self).word@,
                loc.prev,
            ),
    {
        self.finish(tokens, loc.prev);
        match loc.next {
            Some(next) => {
                self.start = next;
            },
            None => {},
        }
    }

    /// What one more character does.
    pub fn next(
        self,
        tokens: &mut Vec<ParsedLexeme>,
        c: char,
        next_char: Option<char>,
        loc: &SourcePositions,
    ) -> (r: ParseState)
        ensures
            steps_as(
                ParseState::Normal(self)@,
                placed(old(tokens)@),
                c,
                next_char,
                *loc,
                Ok(Some(r)),
                placed(final(tokens)@),
            ),
            r.wf(),
    {
        let mut s = self;
        match Symbol::from_char(c) {
            Some(sym) => {
                s.advance(tokens, loc);
                let ghost before = placed(tokens@);
                tokens.push(
                    ParsedLexeme { value: Lexeme::Symbol(sym), loc: SourceRange::at(loc.current) },
                );
                assert(placed(tokens@) =~= before.push(
                    Placed {
                        value: LexemeModel::Symbol(sym),
                        start: loc.current,
                        end: loc.current,
                    },
                ));
                assert(s.word@ =~= Seq::<char>::empty());
                return ParseState::Normal(s);
            },
            None => {},
        }
        if c == '"' {
            s.advance(tokens, loc);
            return ParseState::string(loc.current, StringDelimiter::Double);
        }
        if c == '\'' {
            s.advance(tokens, loc);
            return ParseState::string(loc.current, StringDelimiter::Single);
        }
        if c == '/' && is_char(next_char, '/') {
            s.advance(tokens, loc);
            return ParseState::comment();
        }
        if c == '/' && is_char(next_char, '*') {
            s.advance(tokens, loc);
            return ParseState::range_comment(loc.current);
        }
        if c == ' ' {
            s.advance(tokens, loc);
            assert(s.word@ =~= Seq::<char>::empty());
        } else {
            s.word.push(c);
        }
        ParseState::Normal(s)
    }
}

fn is_char(o: Option<char>, c: char) -> (r: bool)
    ensures
        r == (o == Some(c)),
{
    match o {
        Some(x) => x == c,
        None => false,
    }
}

impl ParseState {
    /// An escape sequence in progress is well-formed.
    pub open spec fn wf(self) -> bool {
        match self {
            ParseState::String(s) => s.escape is Some ==> s.escape->0.wf(),
            _ => true,
        }
    }

    /// The state that reads plain text from `start` on.
    pub fn normal(start: SourceLocation) -> (r: ParseState)
        ensures
            r@ == (ScanState::Normal { start, word: Seq::empty() }),
            r.wf(),
    {
        let r = ParseState::Normal(NormalParseState { start, word: Vec::new() });
        assert(r@->Normal_word =~= Seq::empty());
        r
    }

    /// The state that reads a string literal opened at `start`.
    pub fn string(start: SourceLocation, delimiter: StringDelimiter) -> (r: ParseState)
        ensures
            r@ == (ScanState::Text { start, word: Seq::empty(), delimiter, escape: None }),
            r.wf(),
    {
        let r = ParseState::String(
            StringParseState { start, delimiter, word: Vec::new(), escape: None },
        );
        assert(r@->Text_word =~= Seq::empty());
        r
    }

    /// The state that skips the rest of the line.
    pub fn comment() -> (r: ParseState)
        ensures
            r@ == ScanState::LineComment,
            r.wf(),
    {
        ParseState::LineComment
    }

    /// The state that skips a block comment opened at `loc`.
    pub fn range_comment(loc: SourceLocation) -> (r: ParseState)
        ensures
            r@ == ScanState::RangeComment(
                RangeCommentParseState { start: loc, stage: RangeCommentParseStage::Start },
            ),
            r.wf(),
    {
        ParseState::RangeComment(
            RangeCommentParseState { start: loc, stage: RangeCommentParseStage::Start },
        )
    }

    /// What the end of the text does, `loc` being the position of the last character.
    pub fn finish(self, tokens: &mut Vec<ParsedLexeme>, loc: SourceLocation) -> (r: Result<
        (),
        TokenizeError,
    >)
        ensures
            match scan_end(self@, placed(old(tokens)@), loc) {
                Ok(done) => r is Ok && placed(final(tokens)@) == done,
                Err(e) => r is Err && r->Err_0 == e,
            },
    {
        match self {
            ParseState::LineComment => Ok(()),
            ParseState::String(s) => Err(TokenizeError::UnboundedString(s.start)),
            ParseState::Normal(s) => {
                let mut s = s;
                s.finish(tokens, Some(loc));
                Ok(())
            },
            ParseState::RangeComment(s) => Err(TokenizeError::UnboundedComment(s.start)),
        }
    }

    /// What one character does to the lexer.
    pub fn next(
        self,
        tokens: &mut Vec<ParsedLexeme>,
        c: char,
        next_char: Option<char>,
        loc: &SourcePositions,
    ) -> (r: Result<Option<ParseState>, TokenizeError>)
        requires
            self.wf(),
            self matches ParseState::RangeComment(s) ==> (s.stage is Start ==> c == '*'),
        ensures
            steps_as(self@, placed(old(tokens)@), c, next_char, *loc, r, placed(final(tokens)@)),
            state_wf(r),
    {
        match self {
            ParseState::String(s) => s.next(tokens, c, next_char, loc),
            ParseState::Normal(s) => Ok(Some(s.next(tokens, c, next_char, loc))),
            ParseState::RangeComment(s) => Ok(s.next(c, loc)),
            ParseState::LineComment => {
                if c == '\n' {
                    match loc.next {
                        Some(next) => Ok(Some(ParseState::normal(next))),
                        None => Ok(None),
                    }
                } else {
                    Ok(Some(ParseState::LineComment))
                }
            },
        }
    }
}

/// A block comment that has just opened is followed by its star.
pub open spec fn star_follows(state: ScanState, text: Seq<char>, i: int) -> bool {
    state matches ScanState::RangeComment(s) ==> (s.stage is Start ==> 0 <= i < text.len()
        && text[i] == '*')
}

/// The lexemes of `source`, each with its place, or the first thing that keeps the
/// text from having any. The lexemes come in the order they were written: each starts
/// no later than it ends, and ends before the next one starts.
pub fn scan(source: &str) -> (r: Result<Vec<ParsedLexeme>, TokenizeError>)
    ensures
        match scanned(source@) {
            Ok(done) => r is Ok && placed(r->Ok_0@) == done,
            Err(e) => r is Err && r->Err_0 == e,
        },
        r is Ok ==> crate::token_order::ordered(placed(r->Ok_0@)),
{
    let r = scan_text(source);
    proof {
        crate::token_order::lexemes_are_ordered(source@);
    }
    r
}

fn scan_text(source: &str) -> (r: Result<Vec<ParsedLexeme>, TokenizeError>)
    ensures
        match scanned(source@) {
            Ok(done) => r is Ok && placed(r->Ok_0@) == done,
            Err(e) => r is Err && r->Err_0 == e,
        },
        source@.len() <= usize::MAX,
{
    let mut tokens: Vec<ParsedLexeme> = Vec::new();
    assert(placed(tokens@) =~= Seq::empty());
    let mut iter = match SourceCrawler::new(source) {
        Some(c) => c,
        None => {
            return Ok(tokens);
        },
    };
    let chars = chars_of(source);
    let mut state = if chars.len() >= 2 && chars[0] == '#' && chars[1] == '!' {
        ParseState::LineComment
    } else {
        ParseState::normal(SourceLocation::start())
    };
    let ghost text = source@;
    loop
        invariant
            iter.wf(),
            iter.text() == text,
            text == source@,
            text.len() > 0,
            text.len() <= usize::MAX,
            iter.offset() <= text.len(),
            state.wf(),
            star_follows(state@, text, iter.offset() as int),
            scan_from(text, iter.offset() as int, state@, placed(tokens@)) == scanned(text),
        ensures
            iter.offset() == text.len(),
        decreases text.len() - iter.offset(),
    {
        let ghost i = iter.offset() as int;
        let ghost before = state@;
        let ghost out = placed(tokens@);
        match iter.next() {
            None => {
                break ;
            },
            Some((c, next, loc)) => {
                assert((c, next, loc) == crawled(text, i));
                assert(0 <= i < text.len());
                let stepped = state.next(&mut tokens, c, next, &loc);
                assert(scan_from(text, i, before, out) == match scan_step(before, out, c, next, loc) {
                    Err(e) => Err(e),
                    Ok((None, done)) => Ok(done),
                    Ok((Some(n), done)) => scan_from(text, i + 1, n, done),
                });
                match stepped {
                    Ok(None) => {
                        return Ok(tokens);
                    },
                    Ok(Some(s)) => {
                        state = s;
                        assert(star_follows(state@, text, i + 1));
                    },
                    Err(e) => {
                        return Err(e);
                    },
                }
            },
        }
    }
    let last = iter.last_seen_location();
    match state.finish(&mut tokens, last) {
        Ok(()) => Ok(tokens),
        Err(e) => Err(e),
    }
}

/// The mathematical value of a [`Token`].
pub enum TokenModel {
    String(Seq<char>),
    Number(Number),
    Bool(bool),
    Name(Seq<char>),
    Symbol(Symbol),
}

/// The mathematical value of a [`ParsedToken`].
pub struct PlacedToken {
    pub value: TokenModel,
    pub start: SourceLocation,
    pub end: SourceLocation,
}

/// The value of a token.
pub open spec fn token_model(t: Token) -> TokenModel {
    match t {
        Token::String(s) => TokenModel::String(s@),
        Token::Number(n) => TokenModel::Number(n),
        Token::Bool(b) => TokenModel::Bool(b),
        Token::Name(s) => TokenModel::Name(s@),
        Token::Symbol(s) => TokenModel::Symbol(s),
    }
}

/// The value of a positioned token.
pub open spec fn placed_token(t: ParsedToken) -> PlacedToken {
    PlacedToken { value: token_model(t.value), start: t.loc.start, end: t.loc.end }
}

/// The values of a list of positioned tokens.
pub open spec fn placed_tokens(v: Seq<ParsedToken>) -> Seq<PlacedToken> {
    v.map_values(|t: ParsedToken| placed_token(t))
}

/// How many of the first `k` lexemes are words.
pub open spec fn words_before(lexemes: Seq<Placed>, k: nat) -> nat
    decreases k,
{
    if k == 0 {
        0
    } else {
        words_before(lexemes, (k - 1) as nat) + if lexemes[k - 1].value is Word {
            1nat
        } else {
            0nat
        }
    }
}

/// The texts of the words among the first `k` lexemes, in order.
pub open spec fn word_texts(lexemes: Seq<Placed>, k: nat) -> Seq<Seq<char>>
    decreases k,
{
    if k == 0 {
        Seq::empty()
    } else {
        match lexemes[k - 1].value {
            LexemeModel::Word(w) => word_texts(lexemes, (k - 1) as nat).push(w),
            _ => word_texts(lexemes, (k - 1) as nat),
        }
    }
}

/// The token a word stands for: the number it reads as, if it reads as one;
/// else a truth value for `true` and `false`; else a name.
pub open spec fn classified(word: Seq<char>, reading: Option<Number>) -> TokenModel {
    match reading {
        Some(n) => TokenModel::Number(n),
        None => if word == "true"@ {
            TokenModel::Bool(true)
        } else if word == "false"@ {
            TokenModel::Bool(false)
        } else {
            TokenModel::Name(word)
        },
    }
}

/// The reading of the word with the given rank, nothing where none was supplied.
pub open spec fn reading_of(readings: Seq<Option<Number>>, rank: nat) -> Option<Number> {
    if rank < readings.len() {
        readings[rank as int]
    } else {
        None
    }
}

/// The token that lexeme `i` becomes.
pub open spec fn token_at(lexemes: Seq<Placed>, readings: Seq<Option<Number>>, i: int) -> PlacedToken {
    PlacedToken {
        value: match lexemes[i].value {
            LexemeModel::String(s) => TokenModel::String(s),
            LexemeModel::Symbol(s) => TokenModel::Symbol(s),
            LexemeModel::Word(w) => classified(w, reading_of(readings, words_before(lexemes, i as nat))),
        },
        start: lexemes[i].start,
        end: lexemes[i].end,
    }
}

/// The tokens that the lexemes become, given what each word reads as.
pub open spec fn tokenized(lexemes: Seq<Placed>, readings: Seq<Option<Number>>) -> Seq<PlacedToken> {
    Seq::new(lexemes.len(), |i: int| token_at(lexemes, readings, i))
}

/// The texts of the words among the lexemes, in order. The host tries to read each one
/// as a number and hands the outcomes, in the same order, to [`tokenize`].
pub fn words(lexemes: &Vec<ParsedLexeme>) -> (r: Vec<String>)
    ensures
        r@.map_values(|s: String| s@) == word_texts(placed(lexemes@), lexemes.len() as nat),
        r.len() == words_before(placed(lexemes@), lexemes.len() as nat),
{
    let mut out: Vec<String> = Vec::new();
    let mut i: usize = 0;
    assert(out@.map_values(|s: String| s@) =~= Seq::empty());
    while i < lexemes.len()
        invariant
            i <= lexemes.len(),
            out@.map_values(|s: String| s@) == word_texts(placed(lexemes@), i as nat),
            out.len() == words_before(placed(lexemes@), i as nat),
        decreases lexemes.len() - i,
    {
        assert(placed(lexemes@)[i as int] == lexemes@[i as int]@);
        let ghost before = out@.map_values(|s: String| s@);
        match &lexemes[i].value {
            Lexeme::Word(w) => {
                out.push(w.clone());
                assert(out@.map_values(|s: String| s@) =~= before.push(w@));
            },
            _ => {},
        }
        i += 1;
    }
    out
}

/// Turns lexemes into tokens. `readings` holds, for each word in order, the number the
/// word reads as, or nothing where it does not read as a number.
pub fn tokenize(lexemes: &Vec<ParsedLexeme>, readings: &Vec<Option<Number>>) -> (r: Vec<
    ParsedToken,
>)
    ensures
        placed_tokens(r@) == tokenized(placed(lexemes@), readings@),
{
    let mut out: Vec<ParsedToken> = Vec::new();
    let mut i: usize = 0;
    let mut rank: usize = 0;
    let yes = String::from_str("true");
    let no = String::from_str("false");
    while i < lexemes.len()
        invariant
            i <= lexemes.len(),
            out.len() == i,
            rank == words_before(placed(lexemes@), i as nat),
            rank <= i,
            yes@ == "true"@,
            no@ == "false"@,
            forall|k: int|
                0 <= k < i ==> placed_token(#[trigger] out@[k]) == token_at(
                    placed(lexemes@),
                    readings@,
                    k,
                ),
        decreases lexemes.len() - i,
    {
        assert(placed(lexemes@)[i as int] == lexemes@[i as int]@);
        let loc = lexemes[i].loc;
        let value = match &lexemes[i].value {
            Lexeme::String(s) => Token::String(s.clone()),
            Lexeme::Symbol(s) => Token::Symbol(*s),
            Lexeme::Word(w) => {
                let reading = if rank < readings.len() {
                    readings[rank]
                } else {
                    None
                };
                rank += 1;
                match reading {
                    Some(n) => Token::Number(n),
                    None => {
                        if *w == yes {
                            Token::Bool(true)
                        } else if *w == no {
                            Token::Bool(false)
                        } else {
                            Token::Name(w.clone())
                        }
                    },
                }
            },
        };
        out.push(ParsedToken { value, loc });
        i += 1;
    }
    assert(placed_tokens(out@) =~= tokenized(placed(lexemes@), readings@));
    out
}

} // verus!
