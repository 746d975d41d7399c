//! The parser: recursive descent over tokens, specified by the grammar functions below.
use vstd::prelude::*;
use crate::lang::ast::{
    arms_model, term_model, terms_model, Block, Branch, Function, FunctionModel, Import,
    ImportLocation, ImportModel, ImportNaming, Loop, Module, ModuleModel, NamingModel, Term,
    TermModel,
};
use crate::lang::source_location::{SourceLocation, SourceRange};
use crate::lang::symbol::Symbol;
use crate::lang::token::{ParsedToken, Token};
use crate::parse_error::{
    EndOfFileError, ParseError, ParseSection, ReasonExpectingMore, UnexpectedContext,
    UnexpectedError, WrappedExpression,
};
use crate::tokenizer::{placed_tokens, PlacedToken, TokenModel};

verus! {

/// A symbol that ends a block.
#[derive(Copy, Clone, PartialEq, Eq, Debug, Structural)]
pub enum BlockEndSymbol {
    CurlyClose,
    ParenOpen,
    ParenClose,
    SquareClose,
}

/// The symbol that ended a block, and where it stands.
#[derive(Copy, Clone, PartialEq, Eq, Debug, Structural)]
pub struct BlockEnd {
    pub symbol: BlockEndSymbol,
    pub at: SourceLocation,
}

/// The symbol an end of block is written as.
pub open spec fn end_symbol(e: BlockEndSymbol) -> Symbol {
    match e {
        BlockEndSymbol::CurlyClose => Symbol::CurlyClose,
        BlockEndSymbol::ParenOpen => Symbol::ParenOpen,
        BlockEndSymbol::ParenClose => Symbol::ParenClose,
        BlockEndSymbol::SquareClose => Symbol::SquareClose,
    }
}

/// The end of block a symbol stands for, if it stands for one.
pub open spec fn as_block_end(s: Symbol) -> Option<BlockEndSymbol> {
    match s {
        Symbol::CurlyClose => Some(BlockEndSymbol::CurlyClose),
        Symbol::ParenOpen => Some(BlockEndSymbol::ParenOpen),
        Symbol::ParenClose => Some(BlockEndSymbol::ParenClose),
        Symbol::SquareClose => Some(BlockEndSymbol::SquareClose),
        _ => None,
    }
}

/// The error for a symbol that may not stand where it does.
pub open spec fn stray(symbol: Symbol, at: SourceLocation) -> ParseError {
    ParseError::Unexpected(UnexpectedError::GeneralSymbol(symbol, at))
}

/// The error for a symbol that may not stand in a section.
pub open spec fn stray_in(
    symbol: Symbol,
    at: SourceLocation,
    section: ParseSection,
    start: SourceLocation,
) -> ParseError {
    ParseError::Unexpected(
        UnexpectedError::SymbolInSection {
            section,
            symbol_location: at,
            section_start: start,
            symbol,
        },
    )
}

/// The error for a construct that is never closed.
pub open spec fn open_ended(start: SourceLocation, what: WrappedExpression) -> ParseError {
    ParseError::EndOfFile(EndOfFileError::UnclosedExpression(what, start))
}

/// The error for input that ends where more had to follow.
pub open spec fn cut_short(reason: ReasonExpectingMore, start: SourceLocation) -> ParseError {
    ParseError::EndOfFile(EndOfFileError::ExpectedMoreAfter(reason, start))
}

/// The error for a token that may not stand in a context.
pub open spec fn misplaced(
    context: UnexpectedContext,
    start: SourceLocation,
    at: SourceLocation,
) -> ParseError {
    ParseError::Unexpected(UnexpectedError::InContext { context, context_start: start, loc: at })
}

/// The range a token was written over.
pub open spec fn range_of(t: PlacedToken) -> SourceRange {
    SourceRange { start: t.start, end: t.end }
}

/// The first position at or after `pos` that does not hold a line end.
pub open spec fn skip_lines(toks: Seq<PlacedToken>, pos: int) -> int
    decreases toks.len() - pos,
{
    if 0 <= pos < toks.len() && toks[pos].value == TokenModel::Symbol(Symbol::LineEnd) {
        skip_lines(toks, pos + 1)
    } else {
        pos
    }
}

/// The names of a capture, from `pos` to the closing tilde, last name first.
pub open spec fn capture_names(
    toks: Seq<PlacedToken>,
    pos: int,
    start: SourceLocation,
    acc: Seq<TermModel>,
) -> Result<(Seq<TermModel>, int), ParseError>
    decreases toks.len() - pos,
{
    if pos < 0 || pos >= toks.len() {
        Err(open_ended(start, WrappedExpression::Capture))
    } else {
        match toks[pos].value {
            TokenModel::Name(n) => capture_names(
                toks,
                pos + 1,
                start,
                seq![TermModel::Capture(n, range_of(toks[pos]))] + acc,
            ),
            TokenModel::Symbol(Symbol::LineEnd) => capture_names(toks, pos + 1, start, acc),
            TokenModel::Symbol(Symbol::Tilde) => if acc.len() == 0 {
                Err(misplaced(UnexpectedContext::Capture, start, toks[pos].start))
            } else {
                Ok((acc, pos + 1))
            },
            _ => Err(misplaced(UnexpectedContext::Capture, start, toks[pos].start)),
        }
    }
}

/// The terms that the token at `pos` starts, if it starts any: a literal, a name, an
/// address, a capture, a branch or a loop.
pub open spec fn term_at(toks: Seq<PlacedToken>, pos: int) -> Option<
    Result<(Seq<TermModel>, int), ParseError>,
>
    decreases toks.len() - pos, 0int,
{
    if pos < 0 || pos >= toks.len() {
        None
    } else {
        let at = toks[pos].start;
        match toks[pos].value {
            TokenModel::String(s) => Some(Ok((seq![TermModel::String(s)], pos + 1))),
            TokenModel::Number(n) => Some(Ok((seq![TermModel::Number(n)], pos + 1))),
            TokenModel::Bool(b) => Some(Ok((seq![TermModel::Bool(b)], pos + 1))),
            TokenModel::Name(n) => Some(
                Ok((seq![TermModel::Name(n, range_of(toks[pos]))], pos + 1)),
            ),
            TokenModel::Symbol(Symbol::At) => Some(
                if pos + 1 >= toks.len() {
                    Err(cut_short(ReasonExpectingMore::Address, at))
                } else {
                    match toks[pos + 1].value {
                        TokenModel::Name(n) => Ok((seq![TermModel::Address(n)], pos + 2)),
                        _ => Err(misplaced(UnexpectedContext::Address, at, toks[pos + 1].start)),
                    }
                },
            ),
            TokenModel::Symbol(Symbol::Tilde) => Some(
                capture_names(toks, pos + 1, at, Seq::empty()),
            ),
            TokenModel::Symbol(Symbol::CurlyOpen) => Some(
                match branch(toks, pos + 1, at) {
                    Ok((arms, p)) => Ok((seq![TermModel::Branch(arms)], p)),
                    Err(e) => Err(e),
                },
            ),
            TokenModel::Symbol(Symbol::SquareOpen) => Some(
                match loop_(toks, pos + 1, at) {
                    Ok((l, p)) => Ok((seq![l], p)),
                    Err(e) => Err(e),
                },
            ),
            _ => None,
        }
    }
}

/// The terms of a block from `pos` on, up to the symbol that ends it or the end of input.
pub open spec fn block_terms(toks: Seq<PlacedToken>, pos: int, acc: Seq<TermModel>) -> Result<
    (Seq<TermModel>, Option<BlockEnd>, int),
    ParseError,
>
    decreases toks.len() - pos, 1int,
{
    if pos < 0 || pos >= toks.len() {
        Ok((acc, None, pos))
    } else {
        match term_at(toks, pos) {
            Some(Err(e)) => Err(e),
            Some(Ok((terms, p))) => if pos < p <= toks.len() {
                block_terms(toks, p, acc + terms)
            } else {
                Err(open_ended(toks[pos].start, WrappedExpression::Function))
            },
            None => match toks[pos].value {
                TokenModel::Symbol(s) => if s == Symbol::LineEnd {
                    block_terms(toks, pos + 1, acc)
                } else {
                    match as_block_end(s) {
                        Some(e) => Ok(
                            (acc, Some(BlockEnd { symbol: e, at: toks[pos].start }), pos + 1),
                        ),
                        None => Err(stray(s, toks[pos].start)),
                    }
                },
                _ => Ok((acc, None, pos)),
            },
        }
    }
}

/// A condition from `pos`, right after its opening parenthesis, through its closing one.
pub open spec fn condition(toks: Seq<PlacedToken>, pos: int, start: SourceLocation) -> Result<
    (Seq<TermModel>, int),
    ParseError,
>
    decreases toks.len() - pos, 2int,
{
    match block_terms(toks, pos, Seq::empty()) {
        Err(e) => Err(e),
        Ok((terms, end, p)) => match end {
            None => Err(open_ended(start, WrappedExpression::Condition)),
            Some(e) => if e.symbol == BlockEndSymbol::ParenClose {
                Ok((terms, p))
            } else {
                Err(stray_in(end_symbol(e.symbol), e.at, ParseSection::Condition, start))
            },
        },
    }
}

/// One arm of a branch from `pos`, right after the parenthesis that opens its condition:
/// the condition, the body, and where the next arm's condition opens if one follows.
pub open spec fn branch_arm(toks: Seq<PlacedToken>, pos: int, start: SourceLocation) -> Result<
    (Seq<TermModel>, Seq<TermModel>, Option<SourceLocation>, int),
    ParseError,
>
    decreases toks.len() - pos, 3int,
{
    match condition(toks, pos, start) {
        Err(e) => Err(e),
        Ok((cond, p)) => if pos <= p <= toks.len() {
            match block_terms(toks, p, Seq::empty()) {
                Err(e) => Err(e),
                Ok((body, end, q)) => match end {
                    None => Err(open_ended(start, WrappedExpression::Branch)),
                    Some(e) => match e.symbol {
                        BlockEndSymbol::CurlyClose => Ok((cond, body, None, q)),
                        BlockEndSymbol::ParenOpen => Ok((cond, body, Some(e.at), q)),
                        _ => Err(stray_in(end_symbol(e.symbol), e.at, ParseSection::Branch, start)),
                    },
                },
            }
        } else {
            Err(open_ended(start, WrappedExpression::Branch))
        },
    }
}

/// The arms of a branch from `pos` on.
pub open spec fn arms(
    toks: Seq<PlacedToken>,
    pos: int,
    start: SourceLocation,
    acc: Seq<(Seq<TermModel>, Seq<TermModel>)>,
) -> Result<(Seq<(Seq<TermModel>, Seq<TermModel>)>, int), ParseError>
    decreases toks.len() - pos, 4int,
{
    match branch_arm(toks, pos, start) {
        Err(e) => Err(e),
        Ok((cond, body, more, p)) => match more {
            None => Ok((acc.push((cond, body)), p)),
            Some(s) => if pos < p <= toks.len() {
                arms(toks, p, s, acc.push((cond, body)))
            } else {
                Err(open_ended(start, WrappedExpression::Branch))
            },
        },
    }
}

/// A branch from `pos`, right after its opening brace, through its closing one.
pub open spec fn branch(toks: Seq<PlacedToken>, pos: int, start: SourceLocation) -> Result<
    (Seq<(Seq<TermModel>, Seq<TermModel>)>, int),
    ParseError,
>
    decreases toks.len() - pos, 5int,
{
    let p = skip_lines(toks, pos);
    if p < 0 || p >= toks.len() {
        Err(cut_short(ReasonExpectingMore::Branch, start))
    } else if toks[p].value != TokenModel::Symbol(Symbol::ParenOpen) {
        Err(misplaced(UnexpectedContext::FirstInBranch, start, toks[p].start))
    } else if pos <= p {
        arms(toks, p + 1, start, Seq::empty())
    } else {
        Err(open_ended(start, WrappedExpression::Branch))
    }
}

/// What closes a loop after its post-condition: the closing bracket at `pos`, after
/// any line ends.
pub open spec fn loop_close(
    toks: Seq<PlacedToken>,
    pos: int,
    start: SourceLocation,
    post_start: SourceLocation,
) -> Result<int, ParseError> {
    let p = skip_lines(toks, pos);
    if p < 0 || p >= toks.len() {
        Err(open_ended(start, WrappedExpression::Loop))
    } else if toks[p].value != TokenModel::Symbol(Symbol::SquareClose) {
        Err(misplaced(UnexpectedContext::AfterPostCondition, post_start, toks[p].start))
    } else {
        Ok(p + 1)
    }
}

/// The body of a loop from `pos` on, with the post-condition if there is one.
pub open spec fn loop_rest(
    toks: Seq<PlacedToken>,
    pos: int,
    start: SourceLocation,
    pre: Option<Seq<TermModel>>,
) -> Result<(TermModel, int), ParseError>
    decreases toks.len() - pos, 4int,
{
    match block_terms(toks, pos, Seq::empty()) {
        Err(e) => Err(e),
        Ok((body, end, p)) => match end {
            None => Err(open_ended(start, WrappedExpression::Loop)),
            Some(e) => match e.symbol {
                BlockEndSymbol::SquareClose => Ok((TermModel::Loop(pre, body, None), p)),
                BlockEndSymbol::ParenOpen => if pos < p <= toks.len() {
                    match condition(toks, p, e.at) {
                        Err(e) => Err(e),
                        Ok((post, q)) => match loop_close(toks, q, start, e.at) {
                            Err(e) => Err(e),
                            Ok(r) => Ok((TermModel::Loop(pre, body, Some(post)), r)),
                        },
                    }
                } else {
                    Err(open_ended(start, WrappedExpression::Loop))
                },
                _ => Err(stray_in(end_symbol(e.symbol), e.at, ParseSection::Loop, start)),
            },
        },
    }
}

/// A loop from `pos`, right after its opening bracket, through its closing one.
pub open spec fn loop_(toks: Seq<PlacedToken>, pos: int, start: SourceLocation) -> Result<
    (TermModel, int),
    ParseError,
>
    decreases toks.len() - pos, 5int,
{
    let p = skip_lines(toks, pos);
    if 0 <= p < toks.len() && toks[p].value == TokenModel::Symbol(Symbol::ParenOpen) {
        if pos <= p {
            match condition(toks, p + 1, toks[p].start) {
                Err(e) => Err(e),
                Ok((pre, q)) => if p < q <= toks.len() {
                    loop_rest(toks, q, start, Some(pre))
                } else {
                    Err(open_ended(start, WrappedExpression::Loop))
                },
            }
        } else {
            Err(open_ended(start, WrappedExpression::Loop))
        }
    } else if pos <= p <= toks.len() {
        loop_rest(toks, p, start, None)
    } else {
        Err(open_ended(start, WrappedExpression::Loop))
    }
}

/// The body of a function written on one line: the terms from `pos` to the end of the
/// line or of the input.
pub open spec fn single_line(toks: Seq<PlacedToken>, pos: int, acc: Seq<TermModel>) -> Result<
    (Seq<TermModel>, int),
    ParseError,
>
    decreases toks.len() - pos, 1int,
{
    if pos < 0 || pos >= toks.len() {
        Ok((acc, pos))
    } else {
        match term_at(toks, pos) {
            Some(Err(e)) => Err(e),
            Some(Ok((terms, p))) => if pos < p <= toks.len() {
                single_line(toks, p, acc + terms)
            } else {
                Err(open_ended(toks[pos].start, WrappedExpression::Function))
            },
            None => match toks[pos].value {
                TokenModel::Symbol(s) => if s == Symbol::LineEnd {
                    Ok((acc, pos + 1))
                } else {
                    Err(stray(s, toks[pos].start))
                },
                _ => Ok((acc, pos)),
            },
        }
    }
}

/// The body of a function from `pos`, right after the colon: empty before a line end,
/// braced, or the rest of the line.
pub open spec fn function_body(toks: Seq<PlacedToken>, pos: int) -> Result<
    (Seq<TermModel>, int),
    ParseError,
> {
    if pos < 0 || pos >= toks.len() {
        Ok((Seq::empty(), pos))
    } else if toks[pos].value == TokenModel::Symbol(Symbol::LineEnd) {
        Ok((Seq::empty(), pos))
    } else if toks[pos].value == TokenModel::Symbol(Symbol::CurlyOpen) {
        let start = toks[pos].start;
        match block_terms(toks, pos + 1, Seq::empty()) {
            Err(e) => Err(e),
            Ok((body, end, p)) => match end {
                None => Err(open_ended(start, WrappedExpression::Function)),
                Some(e) => if e.symbol == BlockEndSymbol::CurlyClose {
                    Ok((body, p))
                } else {
                    Err(stray(end_symbol(e.symbol), e.at))
                },
            },
        }
    } else {
        single_line(toks, pos, Seq::empty())
    }
}

/// The names of an import list from `pos` to the closing brace.
pub open spec fn import_names(
    toks: Seq<PlacedToken>,
    pos: int,
    start: SourceLocation,
    acc: Seq<Seq<char>>,
) -> Result<(Seq<Seq<char>>, int), ParseError>
    decreases toks.len() - pos,
{
    if pos < 0 || pos >= toks.len() {
        Err(open_ended(start, WrappedExpression::ImportNameList))
    } else {
        match toks[pos].value {
            TokenModel::Name(n) => import_names(toks, pos + 1, start, acc.push(n)),
            TokenModel::Symbol(Symbol::LineEnd) => import_names(toks, pos + 1, start, acc),
            TokenModel::Symbol(Symbol::CurlyClose) => Ok((acc, pos + 1)),
            _ => Err(misplaced(UnexpectedContext::ImportNameList, start, toks[pos].start)),
        }
    }
}

/// How an import names what it brings in, from `pos` on.
pub open spec fn import_naming(toks: Seq<PlacedToken>, pos: int, start: SourceLocation) -> Result<
    (NamingModel, int),
    ParseError,
> {
    let p = skip_lines(toks, pos);
    if p < 0 || p >= toks.len() {
        Err(cut_short(ReasonExpectingMore::ImportName, start))
    } else {
        match toks[p].value {
            TokenModel::Name(n) => if n == "*"@ {
                Ok((NamingModel::Wildcard, p + 1))
            } else {
                Ok((NamingModel::Scoped(n), p + 1))
            },
            TokenModel::Symbol(Symbol::CurlyOpen) => match import_names(
                toks,
                p + 1,
                toks[p].start,
                Seq::empty(),
            ) {
                Ok((names, q)) => Ok((NamingModel::Named(names), q)),
                Err(e) => Err(e),
            },
            _ => Err(misplaced(UnexpectedContext::ImportNaming, start, toks[p].start)),
        }
    }
}

/// An import from `pos`, right after the hash.
pub open spec fn import(toks: Seq<PlacedToken>, pos: int, start: SourceLocation) -> Result<
    (ImportModel, int),
    ParseError,
> {
    match import_naming(toks, pos, start) {
        Err(e) => Err(e),
        Ok((naming, p)) => if p < 0 || p >= toks.len() {
            Err(cut_short(ReasonExpectingMore::ImportPath, start))
        } else {
            match toks[p].value {
                TokenModel::String(s) => Ok((ImportModel { naming, location: s }, p + 1)),
                _ => Err(misplaced(UnexpectedContext::ImportPath, start, toks[p].start)),
            }
        },
    }
}

/// The module that the tokens from `pos` on add to `acc`.
pub open spec fn module_items(toks: Seq<PlacedToken>, pos: int, acc: ModuleModel) -> Result<
    ModuleModel,
    ParseError,
>
    decreases toks.len() - pos,
{
    if pos < 0 || pos >= toks.len() {
        Ok(acc)
    } else {
        let at = toks[pos].start;
        let named = match toks[pos].value {
            TokenModel::Name(n) => {
                let p = skip_lines(toks, pos + 1);
                if 0 <= p < toks.len() && toks[p].value == TokenModel::Symbol(Symbol::Colon) {
                    Some((n, p + 1))
                } else {
                    None
                }
            },
            _ => None,
        };
        match named {
            Some((name, p)) => match function_body(toks, p) {
                Err(e) => Err(e),
                Ok((body, q)) => if pos < q <= toks.len() {
                    module_items(
                        toks,
                        q,
                        ModuleModel {
                            imports: acc.imports,
                            functions: acc.functions.push(FunctionModel { name, body }),
                            body: acc.body,
                        },
                    )
                } else {
                    Err(open_ended(at, WrappedExpression::Function))
                },
            },
            None => match toks[pos].value {
                TokenModel::Name(n) => {
                    let p = skip_lines(toks, pos + 1);
                    if pos < p <= toks.len() {
                        module_items(
                            toks,
                            p,
                            ModuleModel {
                                imports: acc.imports,
                                functions: acc.functions,
                                body: acc.body.push(TermModel::Name(n, range_of(toks[pos]))),
                            },
                        )
                    } else {
                        Err(open_ended(at, WrappedExpression::Function))
                    }
                },
                _ => match term_at(toks, pos) {
                    Some(Err(e)) => Err(e),
                    Some(Ok((terms, p))) => if pos < p <= toks.len() {
                        module_items(
                            toks,
                            p,
                            ModuleModel {
                                imports: acc.imports,
                                functions: acc.functions,
                                body: acc.body + terms,
                            },
                        )
                    } else {
                        Err(open_ended(at, WrappedExpression::Function))
                    },
                    None => match toks[pos].value {
                        TokenModel::Symbol(s) => if s == Symbol::LineEnd {
                            module_items(toks, pos + 1, acc)
                        } else if s == Symbol::Hash {
                            match import(toks, pos + 1, at) {
                                Err(e) => Err(e),
                                Ok((i, p)) => if pos < p <= toks.len() {
                                    module_items(
                                        toks,
                                        p,
                                        ModuleModel {
                                            imports: acc.imports.push(i),
                                            functions: acc.functions,
                                            body: acc.body,
                                        },
                                    )
                                } else {
                                    Err(open_ended(at, WrappedExpression::Function))
                                },
                            }
                        } else {
                            Err(stray(s, at))
                        },
                        _ => Ok(acc),
                    },
                },
            },
        }
    }
}

/// The module that a sequence of tokens spells, or the first thing that keeps it from
/// spelling one.
pub open spec fn parsed(toks: Seq<PlacedToken>) -> Result<ModuleModel, ParseError> {
    module_items(
        toks,
        0,
        ModuleModel { imports: Seq::empty(), functions: Seq::empty(), body: Seq::empty() },
    )
}

/// The token at `i` has the value the model gives it.
proof fn token_view(tokens: &Vec<ParsedToken>, i: int)
    requires
        0 <= i < tokens.len(),
    ensures
        placed_tokens(tokens@)[i] == crate::tokenizer::placed_token(tokens@[i]),
        placed_tokens(tokens@).len() == tokens.len(),
{
}

/// Skipping line ends never moves backwards nor past the end.
pub proof fn skip_lines_bounds(toks: Seq<PlacedToken>, pos: int)
    requires
        0 <= pos <= toks.len(),
    ensures
        pos <= skip_lines(toks, pos) <= toks.len(),
    decreases toks.len() - pos,
{
    if pos < toks.len() && toks[pos].value == TokenModel::Symbol(Symbol::LineEnd) {
        skip_lines_bounds(toks, pos + 1);
    }
}

fn ignore_whitespace(tokens: &Vec<ParsedToken>, pos: usize) -> (r: usize)
    requires
        pos <= tokens.len(),
    ensures
        r == skip_lines(placed_tokens(tokens@), pos as int),
        pos <= r <= tokens.len(),
{
    let mut i = pos;
    while i < tokens.len() && tokens[i].value.is_symbol(Symbol::LineEnd)
        invariant
            pos <= i <= tokens.len(),
            skip_lines(placed_tokens(tokens@), pos as int) == skip_lines(
                placed_tokens(tokens@),
                i as int,
            ),
        decreases tokens.len() - i,
    {
        proof {
            token_view(tokens, i as int);
        }
        i += 1;
    }
    proof {
        if i < tokens.len() {
            token_view(tokens, i as int);
        }
    }
    i
}

fn parse_capture(tokens: &Vec<ParsedToken>, pos: usize, start: SourceLocation) -> (r: Result<
    (Vec<Term>, usize),
    ParseError,
>)
    requires
        pos <= tokens.len(),
    ensures
        match capture_names(placed_tokens(tokens@), pos as int, start, Seq::empty()) {
            Ok((m, p)) => r is Ok && terms_model(r->Ok_0.0@) == m && r->Ok_0.1 == p && pos < p
                <= tokens.len(),
            Err(e) => r is Err && r->Err_0 == e,
        },
{
    let ghost toks = placed_tokens(tokens@);
    let mut acc: Vec<Term> = Vec::new();
    let mut i = pos;
    assert(terms_model(acc@) =~= Seq::empty());
    while i < tokens.len()
        invariant
            pos <= i <= tokens.len(),
            toks == placed_tokens(tokens@),
            capture_names(toks, pos as int, start, Seq::empty()) == capture_names(
                toks,
                i as int,
                start,
                terms_model(acc@),
            ),
        decreases tokens.len() - i,
    {
        proof {
            token_view(tokens, i as int);
        }
        let at = tokens[i].loc.start;
        match &tokens[i].value {
            Token::Name(n) => {
                let ghost before = terms_model(acc@);
                acc.insert(0, Term::Capture(n.clone(), tokens[i].loc));
                assert(terms_model(acc@) =~= seq![
                    TermModel::Capture(n@, range_of(toks[i as int])),
                ] + before);
            },
            Token::Symbol(Symbol::LineEnd) => {},
            Token::Symbol(Symbol::Tilde) => {
                if acc.len() == 0 {
                    return Err(
                        ParseError::Unexpected(
                            UnexpectedError::InContext {
                                context: UnexpectedContext::Capture,
                                context_start: start,
                                loc: at,
                            },
                        ),
                    );
                }
                return Ok((acc, i + 1));
            },
            _ => {
                return Err(
                    ParseError::Unexpected(
                        UnexpectedError::InContext {
                            context: UnexpectedContext::Capture,
                            context_start: start,
                            loc: at,
                        },
                    ),
                );
            },
        }
        i += 1;
    }
    Err(ParseError::EndOfFile(EndOfFileError::UnclosedExpression(WrappedExpression::Capture, start)))
}

fn one(t: Term) -> (r: Vec<Term>)
    ensures
        terms_model(r@) == seq![term_model(t)],
{
    let ghost m = term_model(t);
    let mut v: Vec<Term> = Vec::new();
    v.push(t);
    assert(terms_model(v@) =~= seq![m]);
    v
}

fn parse_term(tokens: &Vec<ParsedToken>, pos: usize) -> (r: Option<
    Result<(Vec<Term>, usize), ParseError>,
>)
    requires
        pos < tokens.len(),
    ensures
        match term_at(placed_tokens(tokens@), pos as int) {
            None => r is None,
            Some(Ok((m, p))) => r is Some && r->0 is Ok && terms_model(r->0->Ok_0.0@) == m
                && r->0->Ok_0.1 == p && pos < p <= tokens.len(),
            Some(Err(e)) => r is Some && r->0 is Err && r->0->Err_0 == e,
        },
    decreases tokens.len() - pos, 0int,
{
    proof {
        token_view(tokens, pos as int);
    }
    let at = tokens[pos].loc.start;
    match &tokens[pos].value {
        Token::String(l) => Some(Ok((one(Term::String(l.clone())), pos + 1))),
        Token::Number(l) => Some(Ok((one(Term::Number(*l)), pos + 1))),
        Token::Bool(l) => Some(Ok((one(Term::Bool(*l)), pos + 1))),
        Token::Name(l) => Some(Ok((one(Term::Name(l.clone(), tokens[pos].loc)), pos + 1))),
        Token::Symbol(s) => match s {
            Symbol::At => {
                if pos + 1 >= tokens.len() {
                    return Some(
                        Err(
                            ParseError::EndOfFile(
                                EndOfFileError::ExpectedMoreAfter(ReasonExpectingMore::Address, at),
                            ),
                        ),
                    );
                }
                proof {
                    token_view(tokens, pos + 1);
                }
                match &tokens[pos + 1].value {
                    Token::Name(n) => Some(Ok((one(Term::Address(n.clone())), pos + 2))),
                    _ => Some(
                        Err(
                            ParseError::Unexpected(
                                UnexpectedError::InContext {
                                    context: UnexpectedContext::Address,
                                    context_start: at,
                                    loc: tokens[pos + 1].loc.start,
                                },
                            ),
                        ),
                    ),
                }
            },
            Symbol::Tilde => Some(parse_capture(tokens, pos + 1, at)),
            Symbol::CurlyOpen => match parse_branch(tokens, pos + 1, at) {
                Ok((b, p)) => Some(Ok((one(Term::Branch(b)), p))),
                Err(e) => Some(Err(e)),
            },
            Symbol::SquareOpen => match parse_loop(tokens, pos + 1, at) {
                Ok((l, p)) => Some(Ok((one(Term::Loop(l)), p))),
                Err(e) => Some(Err(e)),
            },
            _ => None,
        },
    }
}

fn block_end_of(s: Symbol) -> (r: Option<BlockEndSymbol>)
    ensures
        r == as_block_end(s),
        r is Some ==> end_symbol(r->0) == s,
{
    match s {
        Symbol::CurlyClose => Some(BlockEndSymbol::CurlyClose),
        Symbol::ParenOpen => Some(BlockEndSymbol::ParenOpen),
        Symbol::ParenClose => Some(BlockEndSymbol::ParenClose),
        Symbol::SquareClose => Some(BlockEndSymbol::SquareClose),
        _ => None,
    }
}

fn symbol_of_end(e: BlockEndSymbol) -> (r: Symbol)
    ensures
        r == end_symbol(e),
{
    match e {
        BlockEndSymbol::CurlyClose => Symbol::CurlyClose,
        BlockEndSymbol::ParenOpen => Symbol::ParenOpen,
        BlockEndSymbol::ParenClose => Symbol::ParenClose,
        BlockEndSymbol::SquareClose => Symbol::SquareClose,
    }
}

fn append_terms(acc: &mut Vec<Term>, more: Vec<Term>)
    ensures
        terms_model(final(acc)@) == terms_model(old(acc)@) + terms_model(more@),
{
    let ghost a = terms_model(acc@);
    let ghost b = terms_model(more@);
    let mut more = more;
    acc.append(&mut more);
    assert(terms_model(acc@) =~= a + b);
}

#[verifier::loop_isolation(false)]
fn consume_block_terms(tokens: &Vec<ParsedToken>, pos: usize, acc: Vec<Term>) -> (r: Result<
    (Vec<Term>, Option<BlockEnd>, usize),
    ParseError,
>)
    requires
        pos <= tokens.len(),
    ensures
        match block_terms(placed_tokens(tokens@), pos as int, terms_model(acc@)) {
            Ok((m, end, p)) => r is Ok && terms_model(r->Ok_0.0@) == m && r->Ok_0.1 == end
                && r->Ok_0.2 == p && pos <= p <= tokens.len() && (end is Some ==> pos < p),
            Err(e) => r is Err && r->Err_0 == e,
        },
    decreases tokens.len() - pos, 1int,
{
    let ghost toks = placed_tokens(tokens@);
    let ghost goal = block_terms(toks, pos as int, terms_model(acc@));
    let mut acc = acc;
    let mut i = pos;
    while i < tokens.len()
        invariant
            pos <= i <= tokens.len(),
            toks == placed_tokens(tokens@),
            goal == block_terms(toks, i as int, terms_model(acc@)),
        decreases tokens.len() - i,
    {
        proof {
            token_view(tokens, i as int);
        }
        match parse_term(tokens, i) {
            Some(Err(e)) => {
                return Err(e);
            },
            Some(Ok((terms, p))) => {
                append_terms(&mut acc, terms);
                i = p;
            },
            None => {
                let at = tokens[i].loc.start;
                match &tokens[i].value {
                    Token::Symbol(s) => {
                        if *s == Symbol::LineEnd {
                            i += 1;
                        } else {
                            match block_end_of(*s) {
                                Some(e) => {
                                    return Ok((acc, Some(BlockEnd { symbol: e, at }), i + 1));
                                },
                                None => {
                                    return Err(
                                        ParseError::Unexpected(
                                            UnexpectedError::GeneralSymbol(*s, at),
                                        ),
                                    );
                                },
                            }
                        }
                    },
                    _ => {
                        return Ok((acc, None, i));
                    },
                }
            },
        }
    }
    Ok((acc, None, i))
}

fn parse_condition(tokens: &Vec<ParsedToken>, pos: usize, start: SourceLocation) -> (r: Result<
    (Block, usize),
    ParseError,
>)
    requires
        pos <= tokens.len(),
    ensures
        match condition(placed_tokens(tokens@), pos as int, start) {
            Ok((m, p)) => r is Ok && r->Ok_0.0@ == m && r->Ok_0.1 == p && pos < p
                <= tokens.len(),
            Err(e) => r is Err && r->Err_0 == e,
        },
    decreases tokens.len() - pos, 2int,
{
    let empty: Vec<Term> = Vec::new();
    assert(terms_model(empty@) =~= Seq::empty());
    match consume_block_terms(tokens, pos, empty) {
        Err(e) => Err(e),
        Ok((terms, end, p)) => match end {
            None => Err(
                ParseError::EndOfFile(
                    EndOfFileError::UnclosedExpression(WrappedExpression::Condition, start),
                ),
            ),
            Some(e) => {
                if e.symbol == BlockEndSymbol::ParenClose {
                    Ok((Block { terms }, p))
                } else {
                    Err(
                        ParseError::Unexpected(
                            UnexpectedError::SymbolInSection {
                                section: ParseSection::Condition,
                                symbol_location: e.at,
                                section_start: start,
                                symbol: symbol_of_end(e.symbol),
                            },
                        ),
                    )
                }
            },
        },
    }
}

fn parse_branch_arm(tokens: &Vec<ParsedToken>, pos: usize, start: SourceLocation) -> (r: Result<
    (Block, Block, Option<SourceLocation>, usize),
    ParseError,
>)
    requires
        pos <= tokens.len(),
    ensures
        match branch_arm(placed_tokens(tokens@), pos as int, start) {
            Ok((c, b, more, p)) => r is Ok && r->Ok_0.0@ == c && r->Ok_0.1@ == b && r->Ok_0.2
                == more && r->Ok_0.3 == p && pos < p <= tokens.len(),
            Err(e) => r is Err && r->Err_0 == e,
        },
    decreases tokens.len() - pos, 3int,
{
    let (cond, p) = match parse_condition(tokens, pos, start) {
        Ok(v) => v,
        Err(e) => {
            return Err(e);
        },
    };
    let empty: Vec<Term> = Vec::new();
    assert(terms_model(empty@) =~= Seq::empty());
    match consume_block_terms(tokens, p, empty) {
        Err(e) => Err(e),
        Ok((terms, end, q)) => match end {
            None => Err(
                ParseError::EndOfFile(
                    EndOfFileError::UnclosedExpression(WrappedExpression::Branch, start),
                ),
            ),
            Some(e) => match e.symbol {
                BlockEndSymbol::CurlyClose => Ok((cond, Block { terms }, None, q)),
                BlockEndSymbol::ParenOpen => Ok((cond, Block { terms }, Some(e.at), q)),
                _ => Err(
                    ParseError::Unexpected(
                        UnexpectedError::SymbolInSection {
                            section: ParseSection::Branch,
                            symbol_location: e.at,
                            section_start: start,
                            symbol: symbol_of_end(e.symbol),
                        },
                    ),
                ),
            },
        },
    }
}

fn parse_branch(tokens: &Vec<ParsedToken>, pos: usize, start: SourceLocation) -> (r: Result<
    (Branch, usize),
    ParseError,
>)
    requires
        pos <= tokens.len(),
    ensures
        match branch(placed_tokens(tokens@), pos as int, start) {
            Ok((m, p)) => r is Ok && arms_model(r->Ok_0.0.arms@) == m && r->Ok_0.1 == p && pos
                < p <= tokens.len(),
            Err(e) => r is Err && r->Err_0 == e,
        },
    decreases tokens.len() - pos, 5int,
{
    let ghost toks = placed_tokens(tokens@);
    let first = ignore_whitespace(tokens, pos);
    if first >= tokens.len() {
        return Err(
            ParseError::EndOfFile(
                EndOfFileError::ExpectedMoreAfter(ReasonExpectingMore::Branch, start),
            ),
        );
    }
    proof {
        token_view(tokens, first as int);
    }
    if !tokens[first].value.is_symbol(Symbol::ParenOpen) {
        return Err(
            ParseError::Unexpected(
                UnexpectedError::InContext {
                    context: UnexpectedContext::FirstInBranch,
                    context_start: start,
                    loc: tokens[first].loc.start,
                },
            ),
        );
    }
    let mut arms_list: Vec<(Block, Block)> = Vec::new();
    let mut i = first + 1;
    let mut arm_start = start;
    assert(arms_model(arms_list@) =~= Seq::empty());
    loop
        invariant
            pos < i <= tokens.len(),
            toks == placed_tokens(tokens@),
            branch(toks, pos as int, start) == arms(
                toks,
                i as int,
                arm_start,
                arms_model(arms_list@),
            ),
        decreases tokens.len() - i,
    {
        match parse_branch_arm_at(tokens, i, arm_start, Ghost(pos)) {
            Err(e) => {
                return Err(e);
            },
            Ok((cond, body, more, p)) => {
                let ghost before = arms_model(arms_list@);
                let ghost c = cond@;
                let ghost b = body@;
                arms_list.push((cond, body));
                assert(arms_model(arms_list@) =~= before.push((c, b)));
                match more {
                    None => {
                        return Ok((Branch { arms: arms_list }, p));
                    },
                    Some(s) => {
                        arm_start = s;
                        i = p;
                    },
                }
            },
        }
    }
}

/// One arm of the branch that opened before `from`.
fn parse_branch_arm_at(
    tokens: &Vec<ParsedToken>,
    pos: usize,
    start: SourceLocation,
    Ghost(from): Ghost<usize>,
) -> (r: Result<(Block, Block, Option<SourceLocation>, usize), ParseError>)
    requires
        from < pos <= tokens.len(),
    ensures
        match branch_arm(placed_tokens(tokens@), pos as int, start) {
            Ok((c, b, more, p)) => r is Ok && r->Ok_0.0@ == c && r->Ok_0.1@ == b && r->Ok_0.2
                == more && r->Ok_0.3 == p && pos < p <= tokens.len(),
            Err(e) => r is Err && r->Err_0 == e,
        },
    decreases tokens.len() - from, 4int,
{
    parse_branch_arm(tokens, pos, start)
}

fn close_loop(
    tokens: &Vec<ParsedToken>,
    pos: usize,
    start: SourceLocation,
    post_start: SourceLocation,
) -> (r: Result<usize, ParseError>)
    requires
        pos <= tokens.len(),
    ensures
        match loop_close(placed_tokens(tokens@), pos as int, start, post_start) {
            Ok(p) => r is Ok && r->Ok_0 == p && pos < p <= tokens.len(),
            Err(e) => r is Err && r->Err_0 == e,
        },
{
    let p = ignore_whitespace(tokens, pos);
    if p >= tokens.len() {
        return Err(
            ParseError::EndOfFile(
                EndOfFileError::UnclosedExpression(WrappedExpression::Loop, start),
            ),
        );
    }
    proof {
        token_view(tokens, p as int);
    }
    if !tokens[p].value.is_symbol(Symbol::SquareClose) {
        return Err(
            ParseError::Unexpected(
                UnexpectedError::InContext {
                    context: UnexpectedContext::AfterPostCondition,
                    context_start: post_start,
                    loc: tokens[p].loc.start,
                },
            ),
        );
    }
    Ok(p + 1)
}

/// The value of an optional block.
pub open spec fn optional_block(b: Option<Block>) -> Option<Seq<TermModel>> {
    match b {
        Some(x) => Some(x@),
        None => None,
    }
}

/// The value of a loop.
pub open spec fn loop_model(l: Loop) -> TermModel {
    TermModel::Loop(optional_block(l.pre_condition), l.body@, optional_block(l.post_condition))
}

fn parse_loop_rest(
    tokens: &Vec<ParsedToken>,
    pos: usize,
    start: SourceLocation,
    pre: Option<Block>,
    Ghost(from): Ghost<usize>,
) -> (r: Result<(Loop, usize), ParseError>)
    requires
        from <= pos <= tokens.len(),
    ensures
        match loop_rest(placed_tokens(tokens@), pos as int, start, optional_block(pre)) {
            Ok((m, p)) => r is Ok && loop_model(r->Ok_0.0) == m && r->Ok_0.1 == p && pos < p
                <= tokens.len(),
            Err(e) => r is Err && r->Err_0 == e,
        },
    decreases tokens.len() - from, 4int,
{
    let empty: Vec<Term> = Vec::new();
    assert(terms_model(empty@) =~= Seq::empty());
    match consume_block_terms(tokens, pos, empty) {
        Err(e) => Err(e),
        Ok((terms, end, p)) => match end {
            None => Err(
                ParseError::EndOfFile(
                    EndOfFileError::UnclosedExpression(WrappedExpression::Loop, start),
                ),
            ),
            Some(e) => match e.symbol {
                BlockEndSymbol::SquareClose => Ok(
                    (Loop { pre_condition: pre, body: Block { terms }, post_condition: None }, p),
                ),
                BlockEndSymbol::ParenOpen => {
                    let (post, q) = match parse_condition(tokens, p, e.at) {
                        Ok(v) => v,
                        Err(e) => {
                            return Err(e);
                        },
                    };
                    match close_loop(tokens, q, start, e.at) {
                        Err(e) => Err(e),
                        Ok(r) => Ok(
                            (
                                Loop {
                                    pre_condition: pre,
                                    body: Block { terms },
                                    post_condition: Some(post),
                                },
                                r,
                            ),
                        ),
                    }
                },
                _ => Err(
                    ParseError::Unexpected(
                        UnexpectedError::SymbolInSection {
                            section: ParseSection::Loop,
                            symbol_location: e.at,
                            section_start: start,
                            symbol: symbol_of_end(e.symbol),
                        },
                    ),
                ),
            },
        },
    }
}

fn parse_loop(tokens: &Vec<ParsedToken>, pos: usize, start: SourceLocation) -> (r: Result<
    (Loop, usize),
    ParseError,
>)
    requires
        pos <= tokens.len(),
    ensures
        match loop_(placed_tokens(tokens@), pos as int, start) {
            Ok((m, p)) => r is Ok && loop_model(r->Ok_0.0) == m && r->Ok_0.1 == p && pos < p
                <= tokens.len(),
            Err(e) => r is Err && r->Err_0 == e,
        },
    decreases tokens.len() - pos, 5int,
{
    let p = ignore_whitespace(tokens, pos);
    if p < tokens.len() {
        proof {
            token_view(tokens, p as int);
        }
        if tokens[p].value.is_symbol(Symbol::ParenOpen) {
            let (pre, q) = match parse_condition(tokens, p + 1, tokens[p].loc.start) {
                Ok(v) => v,
                Err(e) => {
                    return Err(e);
                },
            };
            return parse_loop_rest(tokens, q, start, Some(pre), Ghost(pos));
        }
    }
    parse_loop_rest(tokens, p, start, None, Ghost(pos))
}

fn parse_single_line(tokens: &Vec<ParsedToken>, pos: usize) -> (r: Result<
    (Block, usize),
    ParseError,
>)
    requires
        pos <= tokens.len(),
    ensures
        match single_line(placed_tokens(tokens@), pos as int, Seq::empty()) {
            Ok((m, p)) => r is Ok && r->Ok_0.0@ == m && r->Ok_0.1 == p && pos <= p
                <= tokens.len(),
            Err(e) => r is Err && r->Err_0 == e,
        },
{
    let ghost toks = placed_tokens(tokens@);
    let mut acc: Vec<Term> = Vec::new();
    let mut i = pos;
    assert(terms_model(acc@) =~= Seq::empty());
    while i < tokens.len()
        invariant
            pos <= i <= tokens.len(),
            toks == placed_tokens(tokens@),
            single_line(toks, pos as int, Seq::empty()) == single_line(
                toks,
                i as int,
                terms_model(acc@),
            ),
        decreases tokens.len() - i,
    {
        proof {
            token_view(tokens, i as int);
        }
        match parse_term(tokens, i) {
            Some(Err(e)) => {
                return Err(e);
            },
            Some(Ok((terms, p))) => {
                append_terms(&mut acc, terms);
                i = p;
            },
            None => {
                let at = tokens[i].loc.start;
                match &tokens[i].value {
                    Token::Symbol(s) => {
                        if *s == Symbol::LineEnd {
                            return Ok((Block { terms: acc }, i + 1));
                        } else {
                            return Err(
                                ParseError::Unexpected(UnexpectedError::GeneralSymbol(*s, at)),
                            );
                        }
                    },
                    _ => {
                        return Ok((Block { terms: acc }, i));
                    },
                }
            },
        }
    }
    Ok((Block { terms: acc }, i))
}

fn parse_function(name: String, tokens: &Vec<ParsedToken>, pos: usize) -> (r: Result<
    (Function, usize),
    ParseError,
>)
    requires
        pos <= tokens.len(),
    ensures
        match function_body(placed_tokens(tokens@), pos as int) {
            Ok((m, p)) => r is Ok && r->Ok_0.0@ == (FunctionModel { name: name@, body: m })
                && r->Ok_0.1 == p && pos <= p <= tokens.len(),
            Err(e) => r is Err && r->Err_0 == e,
        },
{
    let empty: Vec<Term> = Vec::new();
    assert(terms_model(empty@) =~= Seq::empty());
    if pos >= tokens.len() {
        return Ok((Function { name, body: Block { terms: empty } }, pos));
    }
    proof {
        token_view(tokens, pos as int);
    }
    if tokens[pos].value.is_symbol(Symbol::LineEnd) {
        return Ok((Function { name, body: Block { terms: empty } }, pos));
    }
    if tokens[pos].value.is_symbol(Symbol::CurlyOpen) {
        let start = tokens[pos].loc.start;
        return match consume_block_terms(tokens, pos + 1, empty) {
            Err(e) => Err(e),
            Ok((terms, end, p)) => match end {
                None => Err(
                    ParseError::EndOfFile(
                        EndOfFileError::UnclosedExpression(WrappedExpression::Function, start),
                    ),
                ),
                Some(e) => {
                    if e.symbol == BlockEndSymbol::CurlyClose {
                        Ok((Function { name, body: Block { terms } }, p))
                    } else {
                        Err(
                            ParseError::Unexpected(
                                UnexpectedError::GeneralSymbol(symbol_of_end(e.symbol), e.at),
                            ),
                        )
                    }
                },
            },
        };
    }
    match parse_single_line(tokens, pos) {
        Ok((body, p)) => Ok((Function { name, body }, p)),
        Err(e) => Err(e),
    }
}

fn parse_import_names(tokens: &Vec<ParsedToken>, pos: usize, start: SourceLocation) -> (r: Result<
    (Vec<String>, usize),
    ParseError,
>)
    requires
        pos <= tokens.len(),
    ensures
        match import_names(placed_tokens(tokens@), pos as int, start, Seq::empty()) {
            Ok((m, p)) => r is Ok && r->Ok_0.0@.map_values(|n: String| n@) == m && r->Ok_0.1
                == p && pos < p <= tokens.len(),
            Err(e) => r is Err && r->Err_0 == e,
        },
{
    let ghost toks = placed_tokens(tokens@);
    let mut names: Vec<String> = Vec::new();
    let mut i = pos;
    assert(names@.map_values(|n: String| n@) =~= Seq::empty());
    while i < tokens.len()
        invariant
            pos <= i <= tokens.len(),
            toks == placed_tokens(tokens@),
            import_names(toks, pos as int, start, Seq::empty()) == import_names(
                toks,
                i as int,
                start,
                names@.map_values(|n: String| n@),
            ),
        decreases tokens.len() - i,
    {
        proof {
            token_view(tokens, i as int);
        }
        match &tokens[i].value {
            Token::Name(n) => {
                let ghost before = names@.map_values(|n: String| n@);
                names.push(n.clone());
                assert(names@.map_values(|n: String| n@) =~= before.push(n@));
            },
            Token::Symbol(Symbol::LineEnd) => {},
            Token::Symbol(Symbol::CurlyClose) => {
                return Ok((names, i + 1));
            },
            _ => {
                return Err(
                    ParseError::Unexpected(
                        UnexpectedError::InContext {
                            context: UnexpectedContext::ImportNameList,
                            context_start: start,
                            loc: tokens[i].loc.start,
                        },
                    ),
                );
            },
        }
        i += 1;
    }
    Err(
        ParseError::EndOfFile(
            EndOfFileError::UnclosedExpression(WrappedExpression::ImportNameList, start),
        ),
    )
}

fn parse_import(tokens: &Vec<ParsedToken>, pos: usize, start: SourceLocation) -> (r: Result<
    (Import, usize),
    ParseError,
>)
    requires
        pos <= tokens.len(),
    ensures
        match import(placed_tokens(tokens@), pos as int, start) {
            Ok((m, p)) => r is Ok && r->Ok_0.0@ == m && r->Ok_0.1 == p && pos < p
                <= tokens.len(),
            Err(e) => r is Err && r->Err_0 == e,
        },
{
    let first = ignore_whitespace(tokens, pos);
    if first >= tokens.len() {
        return Err(
            ParseError::EndOfFile(
                EndOfFileError::ExpectedMoreAfter(ReasonExpectingMore::ImportName, start),
            ),
        );
    }
    proof {
        token_view(tokens, first as int);
    }
    let star = String::from_str("*");
    let (naming, p) = match &tokens[first].value {
        Token::Name(n) => {
            if *n == star {
                (ImportNaming::Wildcard, first + 1)
            } else {
                (ImportNaming::Scoped(n.clone()), first + 1)
            }
        },
        Token::Symbol(Symbol::CurlyOpen) => {
            match parse_import_names(tokens, first + 1, tokens[first].loc.start) {
                Ok((names, q)) => (ImportNaming::Named(names), q),
                Err(e) => {
                    return Err(e);
                },
            }
        },
        _ => {
            return Err(
                ParseError::Unexpected(
                    UnexpectedError::InContext {
                        context: UnexpectedContext::ImportNaming,
                        context_start: start,
                        loc: tokens[first].loc.start,
                    },
                ),
            );
        },
    };
    if p >= tokens.len() {
        return Err(
            ParseError::EndOfFile(
                EndOfFileError::ExpectedMoreAfter(ReasonExpectingMore::ImportPath, start),
            ),
        );
    }
    proof {
        token_view(tokens, p as int);
    }
    match &tokens[p].value {
        Token::String(s) => Ok(
            (Import { naming, location: ImportLocation::Relative(s.clone()) }, p + 1),
        ),
        _ => Err(
            ParseError::Unexpected(
                UnexpectedError::InContext {
                    context: UnexpectedContext::ImportPath,
                    context_start: start,
                    loc: tokens[p].loc.start,
                },
            ),
        ),
    }
}

/// The module that the tokens spell, or the first thing that keeps them from spelling one.
pub fn parse(tokens: &Vec<ParsedToken>) -> (r: Result<Module, ParseError>)
    ensures
        match parsed(placed_tokens(tokens@)) {
            Ok(m) => r is Ok && r->Ok_0@ == m,
            Err(e) => r is Err && r->Err_0 == e,
        },
{
    let ghost toks = placed_tokens(tokens@);
    let mut module = Module { imports: Vec::new(), functions: Vec::new(), body: Block::empty() };
    assert(module@.imports =~= Seq::empty());
    assert(module@.functions =~= Seq::empty());
    assert(module@.body =~= Seq::empty());
    let mut i: usize = 0;
    while i < tokens.len()
        invariant
            i <= tokens.len(),
            toks == placed_tokens(tokens@),
            parsed(toks) == module_items(toks, i as int, module@),
        decreases tokens.len() - i,
    {
        proof {
            token_view(tokens, i as int);
        }
        let at = tokens[i].loc.start;
        let ghost before = module@;
        if let Token::Name(n) = &tokens[i].value {
            let p = ignore_whitespace(tokens, i + 1);
            let colon = if p < tokens.len() {
                proof {
                    token_view(tokens, p as int);
                }
                tokens[p].value.is_symbol(Symbol::Colon)
            } else {
                false
            };
            if colon {
                match parse_function(n.clone(), tokens, p + 1) {
                    Err(e) => {
                        return Err(e);
                    },
                    Ok((f, q)) => {
                        let ghost fm = f@;
                        module.functions.push(f);
                        assert(module@.functions =~= before.functions.push(fm));
                        i = q;
                    },
                }
            } else {
                let ghost tm = TermModel::Name(n@, range_of(toks[i as int]));
                module.body.terms.push(Term::Name(n.clone(), tokens[i].loc));
                assert(module@.body =~= before.body.push(tm));
                i = p;
            }
            continue ;
        }
        match parse_term(tokens, i) {
            Some(Err(e)) => {
                return Err(e);
            },
            Some(Ok((terms, p))) => {
                append_terms(&mut module.body.terms, terms);
                i = p;
            },
            None => {
                match &tokens[i].value {
                    Token::Symbol(s) => {
                        if *s == Symbol::LineEnd {
                            i += 1;
                        } else if *s == Symbol::Hash {
                            match parse_import(tokens, i + 1, at) {
                                Err(e) => {
                                    return Err(e);
                                },
                                Ok((import, p)) => {
                                    let ghost im = import@;
                                    module.imports.push(import);
                                    assert(module@.imports =~= before.imports.push(im));
                                    i = p;
                                },
                            }
                        } else {
                            return Err(
                                ParseError::Unexpected(UnexpectedError::GeneralSymbol(*s, at)),
                            );
                        }
                    },
                    _ => {
                        return Ok(module);
                    },
                }
            },
        }
    }
    Ok(module)
}

} // verus!
