//! Tokens, with and without their place in the source.
use vstd::prelude::*;
use crate::lang::number::Number;
use crate::lang::source_location::{SourceLocation, SourceRange};
use crate::lang::symbol::Symbol;

verus! {

/// One token of source text.
#[derive(Debug, PartialEq)]
pub enum Token {
    String(String),
    Number(Number),
    Bool(bool),
    Name(String),
    Symbol(Symbol),
}

/// A token and where it was written.
#[derive(Debug)]
pub struct ParsedToken {
    pub value: Token,
    pub loc: SourceRange,
}

impl Token {
    /// This token, written over the range `l`.
    pub fn with_range(self, l: SourceRange) -> (r: ParsedToken)
        ensures
            r.value == self,
            r.loc == l,
    {
        ParsedToken { loc: l, value: self }
    }

    /// This token, written at the single position `l`.
    pub fn at_location(self, l: SourceLocation) -> (r: ParsedToken)
        ensures
            r.value == self,
            r.loc.start == l,
            r.loc.end == l,
    {
        ParsedToken { loc: SourceRange { start: l, end: l }, value: self }
    }

    /// Whether the token is the given symbol.
    pub fn is_symbol(&self, s: Symbol) -> (r: bool)
        ensures
            r == (*self == Token::Symbol(s)),
    {
        match self {
            Token::Symbol(x) => *x == s,
            _ => false,
        }
    }
}

} // verus!
