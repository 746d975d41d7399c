//! The single-character symbols of the language.
use vstd::prelude::*;

verus! {

/// A structural symbol. `LineEnd` stands for a line break.
#[derive(Copy, Clone, PartialEq, Eq, Debug, Structural)]
pub enum Symbol {
    Colon,
    CurlyOpen,
    CurlyClose,
    ParenOpen,
    ParenClose,
    SquareOpen,
    SquareClose,
    LineEnd,
    Hash,
    At,
    Tilde,
}

/// The character a symbol is shown as.
pub open spec fn symbol_char(s: Symbol) -> char {
    match s {
        Symbol::Colon => ':',
        Symbol::CurlyOpen => '{',
        Symbol::CurlyClose => '}',
        Symbol::ParenOpen => '(',
        Symbol::ParenClose => ')',
        Symbol::SquareOpen => '[',
        Symbol::SquareClose => ']',
        Symbol::Hash => '#',
        Symbol::At => '@',
        Symbol::Tilde => '~',
        Symbol::LineEnd => '\u{2424}',
    }
}

/// The symbol a source character stands for, if it stands for one.
pub open spec fn symbol_of(c: char) -> Option<Symbol> {
    if c == ':' {
        Some(Symbol::Colon)
    } else if c == '@' {
        Some(Symbol::At)
    } else if c == '{' {
        Some(Symbol::CurlyOpen)
    } else if c == '}' {
        Some(Symbol::CurlyClose)
    } else if c == '(' {
        Some(Symbol::ParenOpen)
    } else if c == ')' {
        Some(Symbol::ParenClose)
    } else if c == '[' {
        Some(Symbol::SquareOpen)
    } else if c == ']' {
        Some(Symbol::SquareClose)
    } else if c == '#' {
        Some(Symbol::Hash)
    } else if c == '~' {
        Some(Symbol::Tilde)
    } else if c == '\n' {
        Some(Symbol::LineEnd)
    } else {
        None
    }
}

impl Symbol {
    /// The character the symbol is shown as.
    pub fn to_char(&self) -> (r: char)
        ensures
            r == symbol_char(*self),
    {
        match self {
            Symbol::Colon => ':',
            Symbol::CurlyOpen => '{',
            Symbol::CurlyClose => '}',
            Symbol::ParenOpen => '(',
            Symbol::ParenClose => ')',
            Symbol::SquareOpen => '[',
            Symbol::SquareClose => ']',
            Symbol::Hash => '#',
            Symbol::At => '@',
            Symbol::Tilde => '~',
            Symbol::LineEnd => '\u{2424}',
        }
    }

    /// The symbol a source character stands for, if it stands for one.
    pub fn from_char(c: char) -> (r: Option<Symbol>)
        ensures
            r == symbol_of(c),
    {
        if c == ':' {
            Some(Symbol::Colon)
        } else if c == '@' {
            Some(Symbol::At)
        } else if c == '{' {
            Some(Symbol::CurlyOpen)
        } else if c == '}' {
            Some(Symbol::CurlyClose)
        } else if c == '(' {
            Some(Symbol::ParenOpen)
        } else if c == ')' {
            Some(Symbol::ParenClose)
        } else if c == '[' {
            Some(Symbol::SquareOpen)
        } else if c == ']' {
            Some(Symbol::SquareClose)
        } else if c == '#' {
            Some(Symbol::Hash)
        } else if c == '~' {
            Some(Symbol::Tilde)
        } else if c == '\n' {
            Some(Symbol::LineEnd)
        } else {
            None
        }
    }
}

} // verus!
