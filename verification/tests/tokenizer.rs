use stacklang::lang::{Number, SourceLocation, Symbol, Token};
use stacklang::tokenize_error::{EscapeSequenceError, TokenizeError};
use stacklang::tokenizer::{scan, tokenize, words, Lexeme};

fn read_number(word: &str) -> Option<Number> {
    word.parse::<f64>().ok().map(|v| Number::from_bits(v.to_bits()))
}

fn tokens_of(source: &str) -> Result<Vec<stacklang::lang::ParsedToken>, TokenizeError> {
    let lexemes = scan(source)?;
    let readings: Vec<Option<Number>> = words(&lexemes).iter().map(|w| read_number(w)).collect();
    Ok(tokenize(&lexemes, &readings))
}

fn expect_tokens(source: &str, expected: &[Token]) {
    let actual: Vec<Token> = tokens_of(source).unwrap().into_iter().map(|f| f.value).collect();
    assert_eq!(actual, expected);
}

fn expect_error(source: &str, expected: &TokenizeError) {
    assert_eq!(&tokens_of(source).unwrap_err(), expected);
}

#[test]
fn string_1() {
    let source = r#""\t\r\n""#;
    let expected: Vec<Token> = vec![Token::String("\t\r\n".into())];
    expect_tokens(source, &expected);
}

#[test]
fn string_2() {
    let source = r#""\1""#;
    let expected = TokenizeError::InvalidEscape(
        EscapeSequenceError::InvalidCharacter,
        SourceLocation { line: 0, character: 2, column: 2 },
    );
    expect_error(source, &expected);
}

#[test]
fn string_3() {
    let source = r#""\xf-""#;
    let expected = TokenizeError::InvalidEscape(
        EscapeSequenceError::InvalidHex,
        SourceLocation { line: 0, character: 4, column: 4 },
    );
    expect_error(source, &expected);
}

#[test]
fn string_4() {
    let source = r"'a'";
    let expected: Vec<Token> = vec![Token::String("a".into())];
    expect_tokens(source, &expected);
}

#[test]
fn string_5() {
    let source = r"'a' test";
    let expected: Vec<Token> = vec![Token::String("a".into()), Token::Name("test".into())];
    expect_tokens(source, &expected);
}

#[test]
fn normal_1() {
    let source = "a";
    let expected: Vec<Token> = vec![Token::Name("a".into())];
    expect_tokens(source, &expected);
}

#[test]
fn unbounded_1() {
    let source = "'a";
    let expected =
        TokenizeError::UnboundedString(SourceLocation { line: 0, character: 0, column: 0 });
    expect_error(source, &expected);
}

#[test]
fn unbounded_2() {
    let source = "/* a";
    let expected =
        TokenizeError::UnboundedComment(SourceLocation { line: 0, character: 0, column: 0 });
    expect_error(source, &expected);
}

#[test]
fn empty_1() {
    let source = "";
    let expected: Vec<Token> = vec![];
    expect_tokens(source, &expected);
}

#[test]
fn empty_2() {
    let source = "// test";
    let expected: Vec<Token> = vec![];
    expect_tokens(source, &expected);
}

#[test]
fn empty_3() {
    let source = "// test\n";
    let expected: Vec<Token> = vec![];
    expect_tokens(source, &expected);
}

#[test]
fn escapes() {
    expect_tokens(r#""\\ \" \' \0""#, &[Token::String("\\ \" ' \0".into())]);
    expect_tokens(r#""\x41\x7a""#, &[Token::String("Az".into())]);
    expect_tokens(r#""\xff""#, &[Token::String("\u{ff}".into())]);
    expect_tokens(r#""\u0915""#, &[Token::String("\u{915}".into())]);
    expect_tokens(r#""\u{1f4a9}!""#, &[Token::String("\u{1f4a9}!".into())]);
    expect_tokens(r#""\u{41}""#, &[Token::String("A".into())]);
    expect_tokens("\"a\\\nb\"", &[Token::String("ab".into())]);
}

#[test]
fn escape_errors() {
    let at = |character| SourceLocation { line: 0, character, column: character };
    expect_error(
        r#""\u{}""#,
        &TokenizeError::InvalidEscape(EscapeSequenceError::EmptyUnicode, at(4)),
    );
    expect_error(
        r#""\u{1234567}""#,
        &TokenizeError::InvalidEscape(EscapeSequenceError::TooManyUnicodeDigits, at(10)),
    );
    expect_error(
        r#""\u{110000}""#,
        &TokenizeError::InvalidEscape(EscapeSequenceError::OutOfUnicodeRange, at(10)),
    );
    expect_error(
        r#""\ud800""#,
        &TokenizeError::InvalidEscape(EscapeSequenceError::OutOfUnicodeRange, at(6)),
    );
    expect_error(
        r#""\u12g4""#,
        &TokenizeError::InvalidEscape(EscapeSequenceError::InvalidUnicode, at(5)),
    );
    expect_error(
        r#""\u12}""#,
        &TokenizeError::InvalidEscape(EscapeSequenceError::InvalidUnicode, at(5)),
    );
}

#[test]
fn words_are_classified() {
    expect_tokens(
        "1 -2.5 1e3 true false + == x1 inf",
        &[
            Token::Number(Number::from_bits(1f64.to_bits())),
            Token::Number(Number::from_bits((-2.5f64).to_bits())),
            Token::Number(Number::from_bits(1000f64.to_bits())),
            Token::Bool(true),
            Token::Bool(false),
            Token::Name("+".into()),
            Token::Name("==".into()),
            Token::Name("x1".into()),
            Token::Number(Number::from_bits(f64::INFINITY.to_bits())),
        ],
    );
}

#[test]
fn symbols_and_comments() {
    expect_tokens(
        "a:{b}(c)[d]#@e~f~\n/* x */ g // h",
        &[
            Token::Name("a".into()),
            Token::Symbol(Symbol::Colon),
            Token::Symbol(Symbol::CurlyOpen),
            Token::Name("b".into()),
            Token::Symbol(Symbol::CurlyClose),
            Token::Symbol(Symbol::ParenOpen),
            Token::Name("c".into()),
            Token::Symbol(Symbol::ParenClose),
            Token::Symbol(Symbol::SquareOpen),
            Token::Name("d".into()),
            Token::Symbol(Symbol::SquareClose),
            Token::Symbol(Symbol::Hash),
            Token::Symbol(Symbol::At),
            Token::Name("e".into()),
            Token::Symbol(Symbol::Tilde),
            Token::Name("f".into()),
            Token::Symbol(Symbol::Tilde),
            Token::Symbol(Symbol::LineEnd),
            Token::Name("g".into()),
        ],
    );
}

#[test]
fn shebang_is_a_comment() {
    expect_tokens("#!/usr/bin/env prog\n1", &[Token::Number(Number::from_bits(1f64.to_bits()))]);
    expect_tokens("#!", &[]);
}

#[test]
fn token_positions_are_ordered() {
    let source = "ab 'cd'\n  12 {x}\n/* c */ y // z\n'e\nf' g";
    let tokens = tokens_of(source).unwrap();
    assert!(tokens.len() > 8);
    let mut last_start = 0;
    for t in &tokens {
        assert!(t.loc.start.character <= t.loc.end.character);
        assert!(last_start <= t.loc.start.character);
        last_start = t.loc.start.character;
    }
    let first = &tokens[0];
    assert_eq!(first.loc.start, SourceLocation { character: 0, line: 0, column: 0 });
    assert_eq!(first.loc.end, SourceLocation { character: 1, line: 0, column: 1 });
    let second = &tokens[1];
    assert_eq!(second.loc.start, SourceLocation { character: 3, line: 0, column: 3 });
    assert_eq!(second.loc.end, SourceLocation { character: 6, line: 0, column: 6 });
}

#[test]
fn words_in_order() {
    let lexemes = scan("a 'b' c: 1").unwrap();
    assert_eq!(words(&lexemes), vec!["a".to_string(), "c".to_string(), "1".to_string()]);
    assert_eq!(lexemes[1].value, Lexeme::String("b".into()));
    let tokens = tokenize(&lexemes, &vec![None, None]);
    let values: Vec<Token> = tokens.into_iter().map(|t| t.value).collect();
    assert_eq!(
        values,
        vec![
            Token::Name("a".into()),
            Token::String("b".into()),
            Token::Name("c".into()),
            Token::Symbol(Symbol::Colon),
            Token::Name("1".into()),
        ]
    );
}
