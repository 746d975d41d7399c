use stacklang::analyze::{AnalysisError, BlockAnalysisResult};
use stacklang::interpreter::BacktraceItem;
use stacklang::lang::{Arity, Number, SourceLocation, SourceRange};
use stacklang::parse_error::{Details, ParseError};
use stacklang::parser::parse;
use stacklang::render::{render_backtrace, render_parse_error, report_arity, show_location};
use stacklang::tokenizer::{scan, tokenize, words};

fn read_number(word: &str) -> Option<Number> {
    word.parse::<f64>().ok().map(|v| Number::from_bits(v.to_bits()))
}

fn parse_error(code: &str) -> ParseError {
    let lexemes = match scan(code) {
        Ok(l) => l,
        Err(e) => return ParseError::Tokenization(e),
    };
    let readings: Vec<Option<Number>> = words(&lexemes).iter().map(|w| read_number(w)).collect();
    parse(&tokenize(&lexemes, &readings)).unwrap_err()
}

fn at(line: usize, column: usize) -> SourceLocation {
    SourceLocation { character: 0, line, column }
}

fn called(namespace: usize, name: &str, line: usize, column: usize) -> BacktraceItem {
    BacktraceItem {
        namespace,
        name: name.into(),
        range: SourceRange { start: at(line, column), end: at(line, column) },
    }
}

#[test]
fn locations_count_from_one() {
    assert_eq!(show_location(&at(0, 0)), "1:1");
    assert_eq!(show_location(&at(8, 98)), "9:99");
    assert_eq!(show_location(&at(9, 99)), "10:100");
    assert_eq!(show_location(&at(1233, 18)), "1234:19");
    assert_eq!(
        show_location(&at(usize::MAX, usize::MAX - 1)),
        format!("{}:{}", usize::MAX as u128 + 1, usize::MAX)
    );
}

#[test]
fn a_run_without_a_trail_shows_its_message() {
    assert_eq!(render_backtrace("Stack empty", &vec![], &vec![]), "Stack empty");
}

const RUN_HEAD: &str = "\n╒═════════════════════════════ Runtime Error \n│\n│  ";
const SYNTAX_HEAD: &str = "\n╒═════════════════════════════ Syntax Error \n│\n│   ";

#[test]
fn a_trail_is_shown_innermost_first() {
    let trail = vec![called(0, "main", 0, 0), called(1, "helper", 2, 4), called(7, "+", 11, 0)];
    let paths = vec!["input".to_string(), "lib/helper.sl".to_string()];
    let expected = format!(
        "{RUN_HEAD}Stack empty\n│\n└─ at:  {:10} input:12:1\n        {:10} lib/helper.sl:3:5\n        {:10} input:1:1\n",
        "+", "helper", "main"
    );
    assert_eq!(render_backtrace("Stack empty", &trail, &paths), expected);
    assert!(expected.contains("└─ at:  +          input:12:1\n"));
}

#[test]
fn the_column_of_names_is_at_most_28_wide() {
    let long = "a_name_of_more_than_twenty_four_bytes";
    let trail = vec![called(0, "f", 0, 0), called(0, long, 0, 2)];
    let paths = vec!["input".to_string()];
    let expected = format!(
        "{RUN_HEAD}no\n│\n└─ at:  {long} input:1:3\n        {:28} input:1:1\n",
        "f"
    );
    assert_eq!(render_backtrace("no", &trail, &paths), expected);
}

#[test]
fn the_column_of_names_counts_bytes_and_pads_characters() {
    let trail = vec![called(0, "é", 0, 0)];
    let paths = vec!["input".to_string()];
    let expected = format!("{RUN_HEAD}no\n│\n└─ at:  é{} input:1:1\n", " ".repeat(5));
    assert_eq!(render_backtrace("no", &trail, &paths), expected);
}

#[test]
fn an_error_within_a_line_shows_the_line() {
    let source = "1 2\n3 ) 4\n5";
    let details = parse_error(source).into_details();
    let rule = format!("└{}┐", "─".repeat(12));
    let rest = format!(
        "{rule}\n       2 │ 3 ) 4\n\n    INFO: The ) symbol is only used to close condition blocks\n"
    );
    assert_eq!(
        render_parse_error(Some("main.sl"), &details, source),
        format!("{SYNTAX_HEAD}Unexpected symbol: )\n│\n@ main.sl:2:3\n│\n{rest}")
    );
    assert_eq!(
        render_parse_error(None, &details, source),
        format!("{SYNTAX_HEAD}Unexpected symbol: )\n│\n{rest}")
    );
}

#[test]
fn an_error_over_lines_shows_the_lines() {
    let source = "a\r\nbc\ndef\ng";
    let range = SourceRange { start: at(1, 0), end: at(2, 2) };
    let details = Details::message("Broken".to_string(), range);
    let rule = format!("└{}┘", "─".repeat(12));
    let expected =
        format!("{SYNTAX_HEAD}Broken\n│\n│      2 │ bc\n│      3 │ def\n{rule}\n\n");
    assert_eq!(render_parse_error(None, &details, source), expected);
}

#[test]
fn a_long_line_number_takes_its_room() {
    let mut source = String::new();
    for _ in 0..1234567 {
        source.push('\n');
    }
    source.push_str("here");
    let range = SourceRange { start: at(1234567, 1), end: at(1234567, 3) };
    let details = Details::message("Broken".to_string(), range);
    let rule = format!("└{}┐", "─".repeat(13));
    let expected = format!("{SYNTAX_HEAD}Broken\n│\n{rule}\n  1234568 │ here\n\n");
    assert_eq!(render_parse_error(None, &details, &source), expected);
}

#[test]
fn an_error_behind_the_text_shows_no_line() {
    let range = SourceRange { start: at(5, 0), end: at(5, 0) };
    let details = Details::full("Broken".to_string(), range, "mend it".to_string());
    let expected = format!("{SYNTAX_HEAD}Broken\n│\n    INFO: mend it\n");
    assert_eq!(render_parse_error(None, &details, "one line"), expected);
}

#[test]
fn outcomes_are_reported_under_their_label() {
    let arity: BlockAnalysisResult = Ok(Arity::parse("n n - n").unwrap());
    assert_eq!(report_arity("add", Some(&arity)), "add: n n - n");
    assert_eq!(report_arity("f", Some(&Err(AnalysisError::IndefiniteSize))), "f: unbounded");
    assert_eq!(report_arity("f", Some(&Err(AnalysisError::Pending))), "f: not resolved");
    assert_eq!(
        report_arity("f", Some(&Err(AnalysisError::IncompatibleTypes))),
        "f: incompatible types"
    );
    assert_eq!(
        report_arity(
            "<body>",
            Some(&Err(AnalysisError::MissingDeclaration(vec!["a".into(), "bc".into()])))
        ),
        "<body>: missing declarations: a bc"
    );
    assert_eq!(report_arity("f", None), "f: not resolved");
}
