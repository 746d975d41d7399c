//! The errors of the parser, and what to tell the user about each.
use vstd::prelude::*;
use crate::lang::source_location::{SourceLocation, SourceRange};
use crate::lang::symbol::{symbol_char, Symbol};
use crate::text::{push_str, string_of};
use crate::tokenize_error::{EscapeSequenceError, TokenizeError};

verus! {

/// A construct that has an opening and a closing symbol.
#[derive(Copy, Clone, PartialEq, Eq, Debug, Structural)]
pub enum WrappedExpression {
    Condition,
    Branch,
    Function,
    Loop,
    ImportNameList,
    Capture,
}

/// A construct in which a closing symbol of another construct may turn up.
#[derive(Copy, Clone, PartialEq, Eq, Debug, Structural)]
pub enum ParseSection {
    Condition,
    Branch,
    Loop,
}

/// What the input ended in the middle of.
#[derive(Copy, Clone, PartialEq, Eq, Debug, Structural)]
pub enum ReasonExpectingMore {
    Address,
    Branch,
    ImportName,
    ImportPath,
}

/// The input ended too early.
#[derive(Copy, Clone, PartialEq, Eq, Debug, Structural)]
pub enum EndOfFileError {
    /// The construct opened at the position is never closed.
    UnclosedExpression(WrappedExpression, SourceLocation),
    /// Something had to follow what stands at the position.
    ExpectedMoreAfter(ReasonExpectingMore, SourceLocation),
}

/// A place where only certain tokens may stand.
#[derive(Copy, Clone, PartialEq, Eq, Debug, Structural)]
pub enum UnexpectedContext {
    FirstInBranch,
    Address,
    AfterPostCondition,
    ImportNameList,
    ImportNaming,
    ImportPath,
    Capture,
}

/// A token stands where it may not.
#[derive(Copy, Clone, PartialEq, Eq, Debug, Structural)]
pub enum UnexpectedError {
    InContext { context: UnexpectedContext, context_start: SourceLocation, loc: SourceLocation },
    SymbolInSection {
        section: ParseSection,
        section_start: SourceLocation,
        symbol: Symbol,
        symbol_location: SourceLocation,
    },
    GeneralSymbol(Symbol, SourceLocation),
}

/// Why source text is not a module.
#[derive(Copy, Clone, PartialEq, Eq, Debug, Structural)]
pub enum ParseError {
    Tokenization(TokenizeError),
    EndOfFile(EndOfFileError),
    Unexpected(UnexpectedError),
}

/// A symbol that may not stand where it does.
pub fn unexpected_symbol<T>(symbol: Symbol, loc: SourceLocation) -> (r: Result<T, ParseError>)
    ensures
        r is Err,
        r->Err_0 == ParseError::Unexpected(UnexpectedError::GeneralSymbol(symbol, loc)),
{
    Err(ParseError::Unexpected(UnexpectedError::GeneralSymbol(symbol, loc)))
}

/// A symbol that may not stand in the section that starts at `start`.
pub fn unexpected_symbol_in<T>(
    symbol: Symbol,
    loc: SourceLocation,
    section: ParseSection,
    start: SourceLocation,
) -> (r: Result<T, ParseError>)
    ensures
        r is Err,
        r->Err_0 == ParseError::Unexpected(
            UnexpectedError::SymbolInSection {
                section,
                symbol_location: loc,
                section_start: start,
                symbol,
            },
        ),
{
    Err(
        ParseError::Unexpected(
            UnexpectedError::SymbolInSection {
                section,
                symbol_location: loc,
                section_start: start,
                symbol,
            },
        ),
    )
}

/// The construct opened at `start` is never closed.
pub fn unclosed<T>(start: SourceLocation, section: WrappedExpression) -> (r: Result<T, ParseError>)
    ensures
        r is Err,
        r->Err_0 == ParseError::EndOfFile(EndOfFileError::UnclosedExpression(section, start)),
{
    Err(ParseError::EndOfFile(EndOfFileError::UnclosedExpression(section, start)))
}

/// The input ends where something had to follow.
pub fn need_more<T>(reason: ReasonExpectingMore, start: SourceLocation) -> (r: Result<
    T,
    ParseError,
>)
    ensures
        r is Err,
        r->Err_0 == ParseError::EndOfFile(EndOfFileError::ExpectedMoreAfter(reason, start)),
{
    Err(ParseError::EndOfFile(EndOfFileError::ExpectedMoreAfter(reason, start)))
}

/// The token at `loc` may not stand in the context that starts at `context_start`.
pub fn cannot_use_in<T>(
    context: UnexpectedContext,
    context_start: SourceLocation,
    loc: SourceLocation,
) -> (r: Result<T, ParseError>)
    ensures
        r is Err,
        r->Err_0 == ParseError::Unexpected(
            UnexpectedError::InContext { context, context_start, loc },
        ),
{
    Err(ParseError::Unexpected(UnexpectedError::InContext { context, context_start, loc }))
}

/// What to tell the user about an error: a message, the place, and a hint if there is one.
#[derive(Debug)]
pub struct ErrorDetails {
    pub message: String,
    pub range: SourceRange,
    pub info: Option<String>,
}

/// Builds [`ErrorDetails`].
pub struct Details {
    inner: ErrorDetails,
}

impl Details {
    /// Details without a hint.
    pub fn message(m: String, l: SourceRange) -> (r: ErrorDetails)
        ensures
            r.message == m,
            r.range == l,
            r.info is None,
    {
        Details { inner: ErrorDetails { message: m, range: l, info: None } }.done()
    }

    /// Details with a hint.
    pub fn full(m: String, l: SourceRange, i: String) -> (r: ErrorDetails)
        ensures
            r.message == m,
            r.range == l,
            r.info == Some(i),
    {
        ErrorDetails { message: m, range: l, info: Some(i) }
    }

    /// What was built.
    pub closed spec fn built(self) -> ErrorDetails {
        self.inner
    }

    /// What was built.
    pub fn done(self) -> (r: ErrorDetails)
        ensures
            r == self.built(),
    {
        self.inner
    }
}

/// The message for a tokenizer error.
pub open spec fn tokenize_message(e: TokenizeError) -> Seq<char> {
    match e {
        TokenizeError::UnboundedString(_) => "Unclosed string literal"@,
        TokenizeError::InvalidEscape(EscapeSequenceError::InvalidCharacter, _) => "Invalid string escape character"@,
        TokenizeError::InvalidEscape(EscapeSequenceError::InvalidHex, _) => "Invalid hex escape pattern"@,
        TokenizeError::InvalidEscape(EscapeSequenceError::InvalidUnicode, _) => "Unexpected character in unicode escape pattern"@,
        TokenizeError::InvalidEscape(EscapeSequenceError::EmptyUnicode, _) => "Expected at least one digit in unicode escape pattern"@,
        TokenizeError::InvalidEscape(EscapeSequenceError::TooManyUnicodeDigits, _) => "Exceeded maximum unicode sequence length"@,
        TokenizeError::InvalidEscape(EscapeSequenceError::OutOfUnicodeRange, _) => "Unicode escape pattern is outside the allowable range"@,
        TokenizeError::UnboundedComment(_) => "End of input reached before ending comment"@,
    }
}

/// The hint for a tokenizer error.
pub open spec fn tokenize_info(e: TokenizeError) -> Option<Seq<char>> {
    match e {
        TokenizeError::UnboundedString(_) => Some("String literals can span multiple lines, so an earlier string may be unclosed"@),
        TokenizeError::InvalidEscape(EscapeSequenceError::InvalidCharacter, _) => Some("Supported escapes are: '\\n', '\\r', '\\t', '\\0', '\\xff', '\\u{1f4a9}', and '\\u0915'"@),
        TokenizeError::InvalidEscape(EscapeSequenceError::InvalidHex, _) => Some("Correct hex escapes look like: '\\xff'"@),
        TokenizeError::InvalidEscape(EscapeSequenceError::InvalidUnicode, _) => Some("Unicode escape sequences contain a sequence of hex digits, such as '\\u{1f4a9}' and '\\u0915'"@),
        TokenizeError::InvalidEscape(EscapeSequenceError::EmptyUnicode, _) => None,
        TokenizeError::InvalidEscape(EscapeSequenceError::TooManyUnicodeDigits, _) => Some("Unicode codepoints do not exceed U+10FFFF which is only 6 digits"@),
        TokenizeError::InvalidEscape(EscapeSequenceError::OutOfUnicodeRange, _) => Some("Unicode codepoints range from U+0000 to U+10FFFF, with some invalid ranges in between"@),
        TokenizeError::UnboundedComment(_) => Some("Multiline comments are closed with: */"@),
    }
}

/// What a wrapped construct is called in messages.
pub open spec fn wrapped_name(w: WrappedExpression) -> Seq<char> {
    match w {
        WrappedExpression::Condition => "condition"@,
        WrappedExpression::Branch => "branch"@,
        WrappedExpression::Function => "function"@,
        WrappedExpression::Loop => "loop"@,
        WrappedExpression::ImportNameList => "import name list"@,
        WrappedExpression::Capture => "capture"@,
    }
}

/// How a wrapped construct is closed.
pub open spec fn wrapped_info(w: WrappedExpression) -> Seq<char> {
    match w {
        WrappedExpression::Condition => "Conditions are closed using: )"@,
        WrappedExpression::Branch => "Branch statements are closed using: }"@,
        WrappedExpression::Function => "Function bodies are closed using: }"@,
        WrappedExpression::Loop => "Loops are closed using ]"@,
        WrappedExpression::ImportNameList => "Import name lists are closed using }, like: # {f1 f2} \"./file.sl\""@,
        WrappedExpression::Capture => "Captures are closed using ~, like: ~a b~"@,
    }
}

/// The message for input that ends where more had to follow.
pub open spec fn more_message(m: ReasonExpectingMore) -> Seq<char> {
    match m {
        ReasonExpectingMore::Address => "Incomplete function pointer expression"@,
        ReasonExpectingMore::Branch => "Incomplete branch expression"@,
        ReasonExpectingMore::ImportName => "Incomplete import statement"@,
        ReasonExpectingMore::ImportPath => "Incomplete import statement"@,
    }
}

/// The hint for input that ends where more had to follow.
pub open spec fn more_info(m: ReasonExpectingMore) -> Seq<char> {
    match m {
        ReasonExpectingMore::Address => "A function pointer (@) must be followed directly by a function name"@,
        ReasonExpectingMore::Branch => "End a branch expression with: }"@,
        ReasonExpectingMore::ImportName => "An import (#) must specify a name, wildcard, or set of functions to import"@,
        ReasonExpectingMore::ImportPath => "An import (#) must specify a relative path: # * \"./file.sl\""@,
    }
}

/// The message for a token that may not stand in a context.
pub open spec fn context_message(c: UnexpectedContext) -> Seq<char> {
    match c {
        UnexpectedContext::FirstInBranch => "Branch must start with a condition"@,
        UnexpectedContext::Address => "Invalid function pointer"@,
        UnexpectedContext::AfterPostCondition => "Unexpected expression after loop's post condition"@,
        UnexpectedContext::ImportNameList => "Unexpected expression in import name list"@,
        UnexpectedContext::ImportNaming => "Unexpected expression in import"@,
        UnexpectedContext::ImportPath => "Invalid import path"@,
        UnexpectedContext::Capture => "Unexpected expression in capture"@,
    }
}

/// The hint for a token that may not stand in a context.
pub open spec fn context_info(c: UnexpectedContext) -> Seq<char> {
    match c {
        UnexpectedContext::FirstInBranch => "Create a condition inside this branch statement with: {(condition) ... }"@,
        UnexpectedContext::Address => "A function pointer (@) must be followed directly by a function name"@,
        UnexpectedContext::AfterPostCondition => "If a loop contains a post condition, it must be the last statement before the closing ]"@,
        UnexpectedContext::ImportNameList => "Name lists should include only names separated by spaces, such as: # {name list} \"./file1.sl\""@,
        UnexpectedContext::ImportNaming => "The first expression after # must follow the format: *, name, or {name list}"@,
        UnexpectedContext::ImportPath => "The second expression after # must be a relative path like: # file1 \"./file1.sl\""@,
        UnexpectedContext::Capture => "Captures should include only names separated by spaces, such as: ~first second~"@,
    }
}

/// Whether the message for a context points at the whole stretch from the start of the
/// context to the token, or at the start alone.
pub open spec fn context_spans(c: UnexpectedContext) -> bool {
    match c {
        UnexpectedContext::FirstInBranch => true,
        UnexpectedContext::Address => false,
        UnexpectedContext::AfterPostCondition => true,
        UnexpectedContext::ImportNameList => true,
        UnexpectedContext::ImportNaming => true,
        UnexpectedContext::ImportPath => true,
        UnexpectedContext::Capture => true,
    }
}

/// What a section is called in messages.
pub open spec fn section_name(s: ParseSection) -> Seq<char> {
    match s {
        ParseSection::Condition => "condition"@,
        ParseSection::Branch => "branch"@,
        ParseSection::Loop => "loop"@,
    }
}

/// The hint for a symbol that may not stand where it does.
pub open spec fn symbol_info(s: Symbol) -> Option<Seq<char>> {
    match s {
        Symbol::Colon => Some(": is only used at the top level to label functions"@),
        Symbol::CurlyClose => Some("The } symbol is only used to close branch or function blocks"@),
        Symbol::ParenClose => Some("The ) symbol is only used to close condition blocks"@),
        Symbol::SquareClose => Some("The ] symbol is only used to close loops"@),
        Symbol::Hash => Some("The # symbol can only be used at the top level for imports"@),
        Symbol::Tilde => Some("The ~ symbol is only used inside blocks to open and close captures"@),
        _ => None,
    }
}

fn tokenize_message_text(e: &TokenizeError) -> (r: &'static str)
    ensures
        r@ == tokenize_message(*e),
{
    match e {
        TokenizeError::UnboundedString(_) => "Unclosed string literal",
        TokenizeError::InvalidEscape(EscapeSequenceError::InvalidCharacter, _) => "Invalid string escape character",
        TokenizeError::InvalidEscape(EscapeSequenceError::InvalidHex, _) => "Invalid hex escape pattern",
        TokenizeError::InvalidEscape(EscapeSequenceError::InvalidUnicode, _) => "Unexpected character in unicode escape pattern",
        TokenizeError::InvalidEscape(EscapeSequenceError::EmptyUnicode, _) => "Expected at least one digit in unicode escape pattern",
        TokenizeError::InvalidEscape(EscapeSequenceError::TooManyUnicodeDigits, _) => "Exceeded maximum unicode sequence length",
        TokenizeError::InvalidEscape(EscapeSequenceError::OutOfUnicodeRange, _) => "Unicode escape pattern is outside the allowable range",
        TokenizeError::UnboundedComment(_) => "End of input reached before ending comment",
    }
}

fn tokenize_info_text(e: &TokenizeError) -> (r: Option<&'static str>)
    ensures
        match r {
            Some(t) => tokenize_info(*e) == Some(t@),
            None => tokenize_info(*e) is None,
        },
{
    match e {
        TokenizeError::UnboundedString(_) => Some("String literals can span multiple lines, so an earlier string may be unclosed"),
        TokenizeError::InvalidEscape(EscapeSequenceError::InvalidCharacter, _) => Some("Supported escapes are: '\\n', '\\r', '\\t', '\\0', '\\xff', '\\u{1f4a9}', and '\\u0915'"),
        TokenizeError::InvalidEscape(EscapeSequenceError::InvalidHex, _) => Some("Correct hex escapes look like: '\\xff'"),
        TokenizeError::InvalidEscape(EscapeSequenceError::InvalidUnicode, _) => Some("Unicode escape sequences contain a sequence of hex digits, such as '\\u{1f4a9}' and '\\u0915'"),
        TokenizeError::InvalidEscape(EscapeSequenceError::EmptyUnicode, _) => None,
        TokenizeError::InvalidEscape(EscapeSequenceError::TooManyUnicodeDigits, _) => Some("Unicode codepoints do not exceed U+10FFFF which is only 6 digits"),
        TokenizeError::InvalidEscape(EscapeSequenceError::OutOfUnicodeRange, _) => Some("Unicode codepoints range from U+0000 to U+10FFFF, with some invalid ranges in between"),
        TokenizeError::UnboundedComment(_) => Some("Multiline comments are closed with: */"),
    }
}

fn wrapped_name_text(w: &WrappedExpression) -> (r: &'static str)
    ensures
        r@ == wrapped_name(*w),
{
    match w {
        WrappedExpression::Condition => "condition",
        WrappedExpression::Branch => "branch",
        WrappedExpression::Function => "function",
        WrappedExpression::Loop => "loop",
        WrappedExpression::ImportNameList => "import name list",
        WrappedExpression::Capture => "capture",
    }
}

fn wrapped_info_text(w: &WrappedExpression) -> (r: &'static str)
    ensures
        r@ == wrapped_info(*w),
{
    match w {
        WrappedExpression::Condition => "Conditions are closed using: )",
        WrappedExpression::Branch => "Branch statements are closed using: }",
        WrappedExpression::Function => "Function bodies are closed using: }",
        WrappedExpression::Loop => "Loops are closed using ]",
        WrappedExpression::ImportNameList => "Import name lists are closed using }, like: # {f1 f2} \"./file.sl\"",
        WrappedExpression::Capture => "Captures are closed using ~, like: ~a b~",
    }
}

fn more_message_text(m: &ReasonExpectingMore) -> (r: &'static str)
    ensures
        r@ == more_message(*m),
{
    match m {
        ReasonExpectingMore::Address => "Incomplete function pointer expression",
        ReasonExpectingMore::Branch => "Incomplete branch expression",
        ReasonExpectingMore::ImportName => "Incomplete import statement",
        ReasonExpectingMore::ImportPath => "Incomplete import statement",
    }
}

fn more_info_text(m: &ReasonExpectingMore) -> (r: &'static str)
    ensures
        r@ == more_info(*m),
{
    match m {
        ReasonExpectingMore::Address => "A function pointer (@) must be followed directly by a function name",
        ReasonExpectingMore::Branch => "End a branch expression with: }",
        ReasonExpectingMore::ImportName => "An import (#) must specify a name, wildcard, or set of functions to import",
        ReasonExpectingMore::ImportPath => "An import (#) must specify a relative path: # * \"./file.sl\"",
    }
}

fn context_message_text(c: &UnexpectedContext) -> (r: &'static str)
    ensures
        r@ == context_message(*c),
{
    match c {
        UnexpectedContext::FirstInBranch => "Branch must start with a condition",
        UnexpectedContext::Address => "Invalid function pointer",
        UnexpectedContext::AfterPostCondition => "Unexpected expression after loop's post condition",
        UnexpectedContext::ImportNameList => "Unexpected expression in import name list",
        UnexpectedContext::ImportNaming => "Unexpected expression in import",
        UnexpectedContext::ImportPath => "Invalid import path",
        UnexpectedContext::Capture => "Unexpected expression in capture",
    }
}

fn context_info_text(c: &UnexpectedContext) -> (r: &'static str)
    ensures
        r@ == context_info(*c),
{
    match c {
        UnexpectedContext::FirstInBranch => "Create a condition inside this branch statement with: {(condition) ... }",
        UnexpectedContext::Address => "A function pointer (@) must be followed directly by a function name",
        UnexpectedContext::AfterPostCondition => "If a loop contains a post condition, it must be the last statement before the closing ]",
        UnexpectedContext::ImportNameList => "Name lists should include only names separated by spaces, such as: # {name list} \"./file1.sl\"",
        UnexpectedContext::ImportNaming => "The first expression after # must follow the format: *, name, or {name list}",
        UnexpectedContext::ImportPath => "The second expression after # must be a relative path like: # file1 \"./file1.sl\"",
        UnexpectedContext::Capture => "Captures should include only names separated by spaces, such as: ~first second~",
    }
}

fn section_name_text(s: &ParseSection) -> (r: &'static str)
    ensures
        r@ == section_name(*s),
{
    match s {
        ParseSection::Condition => "condition",
        ParseSection::Branch => "branch",
        ParseSection::Loop => "loop",
    }
}

fn symbol_info_text(s: &Symbol) -> (r: Option<&'static str>)
    ensures
        match r {
            Some(t) => symbol_info(*s) == Some(t@),
            None => symbol_info(*s) is None,
        },
{
    match s {
        Symbol::Colon => Some(": is only used at the top level to label functions"),
        Symbol::CurlyClose => Some("The } symbol is only used to close branch or function blocks"),
        Symbol::ParenClose => Some("The ) symbol is only used to close condition blocks"),
        Symbol::SquareClose => Some("The ] symbol is only used to close loops"),
        Symbol::Hash => Some("The # symbol can only be used at the top level for imports"),
        Symbol::Tilde => Some("The ~ symbol is only used inside blocks to open and close captures"),
        _ => None,
    }
}

/// Where a tokenizer error points.
pub open spec fn tokenize_location(e: TokenizeError) -> SourceLocation {
    match e {
        TokenizeError::UnboundedString(l) => l,
        TokenizeError::InvalidEscape(_, l) => l,
        TokenizeError::UnboundedComment(l) => l,
    }
}

/// Details stand for an error when message, place and hint are the ones given.
pub open spec fn details_are(
    d: ErrorDetails,
    message: Seq<char>,
    start: SourceLocation,
    end: SourceLocation,
    info: Option<Seq<char>>,
) -> bool {
    &&& d.message@ == message
    &&& d.range.start == start
    &&& d.range.end == end
    &&& match info {
        Some(i) => d.info is Some && d.info->0@ == i,
        None => d.info is None,
    }
}

fn details(message: String, start: SourceLocation, end: SourceLocation, info: Option<&str>) -> (r:
    ErrorDetails)
    ensures
        details_are(
            r,
            message@,
            start,
            end,
            match info {
                Some(i) => Some(i@),
                None => None,
            },
        ),
{
    let range = SourceRange::between(start, end);
    match info {
        Some(i) => Details::full(message, range, String::from_str(i)),
        None => Details::message(message, range),
    }
}

impl TokenizeError {
    /// Whether reading more input could still make the text valid.
    pub fn is_early_eof(&self) -> (r: bool)
        ensures
            r == (*self is UnboundedString),
    {
        match self {
            TokenizeError::UnboundedString(_) => true,
            TokenizeError::InvalidEscape(_, _) => false,
            TokenizeError::UnboundedComment(_) => false,
        }
    }

    /// What to tell the user about the error.
    pub fn into_details(self) -> (r: ErrorDetails)
        ensures
            details_are(
                r,
                tokenize_message(self),
                tokenize_location(self),
                tokenize_location(self),
                tokenize_info(self),
            ),
    {
        let loc = match self {
            TokenizeError::UnboundedString(l) => l,
            TokenizeError::InvalidEscape(_, l) => l,
            TokenizeError::UnboundedComment(l) => l,
        };
        details(
            String::from_str(tokenize_message_text(&self)),
            loc,
            loc,
            tokenize_info_text(&self),
        )
    }
}

/// The message for an error at the end of input.
pub open spec fn end_of_file_message(e: EndOfFileError) -> Seq<char> {
    match e {
        EndOfFileError::UnclosedExpression(w, _) => "End of file reached before close of "@
            + wrapped_name(w),
        EndOfFileError::ExpectedMoreAfter(m, _) => more_message(m),
    }
}

/// The hint for an error at the end of input.
pub open spec fn end_of_file_info(e: EndOfFileError) -> Seq<char> {
    match e {
        EndOfFileError::UnclosedExpression(w, _) => wrapped_info(w),
        EndOfFileError::ExpectedMoreAfter(m, _) => more_info(m),
    }
}

/// Where an error at the end of input points.
pub open spec fn end_of_file_location(e: EndOfFileError) -> SourceLocation {
    match e {
        EndOfFileError::UnclosedExpression(_, l) => l,
        EndOfFileError::ExpectedMoreAfter(_, l) => l,
    }
}

impl EndOfFileError {
    /// What to tell the user about the error.
    pub fn into_details(self) -> (r: ErrorDetails)
        ensures
            details_are(
                r,
                end_of_file_message(self),
                end_of_file_location(self),
                end_of_file_location(self),
                Some(end_of_file_info(self)),
            ),
    {
        match self {
            EndOfFileError::UnclosedExpression(expression, loc) => {
                let mut message: Vec<char> = Vec::new();
                push_str(&mut message, "End of file reached before close of ");
                push_str(&mut message, wrapped_name_text(&expression));
                assert(message@ =~= end_of_file_message(self));
                details(string_of(&message), loc, loc, Some(wrapped_info_text(&expression)))
            },
            EndOfFileError::ExpectedMoreAfter(reason, loc) => details(
                String::from_str(more_message_text(&reason)),
                loc,
                loc,
                Some(more_info_text(&reason)),
            ),
        }
    }
}

/// The message for a token that stands where it may not.
pub open spec fn unexpected_message(e: UnexpectedError) -> Seq<char> {
    match e {
        UnexpectedError::InContext { context, .. } => context_message(context),
        UnexpectedError::SymbolInSection { section, symbol, .. } => "Unexpected "@ + seq![
            symbol_char(symbol),
        ] + " in "@ + section_name(section),
        UnexpectedError::GeneralSymbol(symbol, _) => "Unexpected symbol: "@ + seq![
            symbol_char(symbol),
        ],
    }
}

/// The hint for a token that stands where it may not.
pub open spec fn unexpected_info(e: UnexpectedError) -> Option<Seq<char>> {
    match e {
        UnexpectedError::InContext { context, .. } => Some(context_info(context)),
        UnexpectedError::SymbolInSection { .. } => None,
        UnexpectedError::GeneralSymbol(symbol, _) => symbol_info(symbol),
    }
}

/// Where the stretch starts that such an error points at.
pub open spec fn unexpected_start(e: UnexpectedError) -> SourceLocation {
    match e {
        UnexpectedError::InContext { context_start, .. } => context_start,
        UnexpectedError::SymbolInSection { section_start, .. } => section_start,
        UnexpectedError::GeneralSymbol(_, l) => l,
    }
}

/// Where the stretch ends that such an error points at.
pub open spec fn unexpected_end(e: UnexpectedError) -> SourceLocation {
    match e {
        UnexpectedError::InContext { context, context_start, loc } => if context_spans(context) {
            loc
        } else {
            context_start
        },
        UnexpectedError::SymbolInSection { symbol_location, .. } => symbol_location,
        UnexpectedError::GeneralSymbol(_, l) => l,
    }
}

impl UnexpectedError {
    /// What to tell the user about the error.
    pub fn into_details(self) -> (r: ErrorDetails)
        ensures
            details_are(
                r,
                unexpected_message(self),
                unexpected_start(self),
                unexpected_end(self),
                unexpected_info(self),
            ),
    {
        match self {
            UnexpectedError::InContext { context, loc, context_start } => {
                let end = match context {
                    UnexpectedContext::Address => context_start,
                    _ => loc,
                };
                details(
                    String::from_str(context_message_text(&context)),
                    context_start,
                    end,
                    Some(context_info_text(&context)),
                )
            },
            UnexpectedError::SymbolInSection { section, section_start, symbol, symbol_location } => {
                let mut message: Vec<char> = Vec::new();
                push_str(&mut message, "Unexpected ");
                message.push(symbol.to_char());
                push_str(&mut message, " in ");
                push_str(&mut message, section_name_text(&section));
                assert(message@ =~= unexpected_message(self));
                details(string_of(&message), section_start, symbol_location, None)
            },
            UnexpectedError::GeneralSymbol(symbol, loc) => {
                let mut message: Vec<char> = Vec::new();
                push_str(&mut message, "Unexpected symbol: ");
                message.push(symbol.to_char());
                assert(message@ =~= unexpected_message(self));
                details(string_of(&message), loc, loc, symbol_info_text(&symbol))
            },
        }
    }
}

impl ParseError {
    /// Whether reading more input could still make the text valid: true of every
    /// error at the end of input and of an unclosed string literal.
    pub fn is_early_eof(&self) -> (r: bool)
        ensures
            r == match *self {
                ParseError::EndOfFile(_) => true,
                ParseError::Tokenization(e) => e is UnboundedString,
                ParseError::Unexpected(_) => false,
            },
    {
        match self {
            ParseError::EndOfFile(_) => true,
            ParseError::Tokenization(e) => e.is_early_eof(),
            ParseError::Unexpected(_) => false,
        }
    }

    /// What to tell the user about the error.
    pub fn into_details(self) -> (r: ErrorDetails)
        ensures
            match self {
                ParseError::Tokenization(e) => details_are(
                    r,
                    tokenize_message(e),
                    tokenize_location(e),
                    tokenize_location(e),
                    tokenize_info(e),
                ),
                ParseError::EndOfFile(e) => details_are(
                    r,
                    end_of_file_message(e),
                    end_of_file_location(e),
                    end_of_file_location(e),
                    Some(end_of_file_info(e)),
                ),
                ParseError::Unexpected(e) => details_are(
                    r,
                    unexpected_message(e),
                    unexpected_start(e),
                    unexpected_end(e),
                    unexpected_info(e),
                ),
            },
    {
        match self {
            ParseError::Tokenization(e) => e.into_details(),
            ParseError::EndOfFile(e) => e.into_details(),
            ParseError::Unexpected(e) => e.into_details(),
        }
    }
}

} // verus!
