use stacklang::lang::{SourceCrawler, SourceLocation, SourcePositions};

fn make_positions(
    prev: (usize, usize, usize),
    break_line: bool,
    break_line_after: bool,
) -> SourcePositions {
    let prev = SourceLocation { line: prev.0, column: prev.1, character: prev.2 };
    let current = if break_line {
        SourceLocation { character: prev.character + 1, line: prev.line + 1, column: 0 }
    } else {
        SourceLocation { character: prev.character + 1, line: prev.line, column: prev.column + 1 }
    };

    let next = if break_line_after {
        SourceLocation { character: current.character + 1, line: current.line + 1, column: 0 }
    } else {
        SourceLocation {
            character: current.character + 1,
            line: current.line,
            column: current.column + 1,
        }
    };

    SourcePositions { prev: Some(prev), current, next: Some(next) }
}

fn crawl(source: &str) -> Vec<(char, Option<char>, SourcePositions)> {
    let mut crawler = SourceCrawler::new(source).unwrap();
    let mut out = vec![];
    while let Some(item) = crawler.next() {
        out.push(item);
    }
    out
}

#[test]
fn crawl_1() {
    let actual = crawl(
        r"012
1
2",
    );

    let expected = &[
        (
            '0',
            Some('1'),
            SourcePositions {
                prev: None,
                current: SourceLocation { line: 0, column: 0, character: 0 },
                next: Some(SourceLocation { line: 0, column: 1, character: 1 }),
            },
        ),
        ('1', Some('2'), make_positions((0, 0, 0), false, false)),
        ('2', Some('\n'), make_positions((0, 1, 1), false, false)),
        ('\n', Some('1'), make_positions((0, 2, 2), false, true)),
        ('1', Some('\n'), make_positions((0, 3, 3), true, false)),
        ('\n', Some('2'), make_positions((1, 0, 4), false, true)),
        (
            '2',
            None,
            SourcePositions {
                prev: Some(SourceLocation { line: 1, column: 1, character: 5 }),
                current: SourceLocation { line: 2, column: 0, character: 6 },
                next: None,
            },
        ),
    ];

    for (i, actual_element) in actual.iter().enumerate() {
        assert_eq!(Some(actual_element), expected.get(i), "{i}");
    }

    assert_eq!(actual.len(), expected.len());
}

#[test]
fn crawler_of_empty_text() {
    assert!(SourceCrawler::new("").is_none());
}

#[test]
fn location_steps() {
    let start = SourceLocation::start();
    assert_eq!(start, SourceLocation { character: 0, line: 0, column: 0 });
    assert_eq!(start.add('a'), SourceLocation { character: 1, line: 0, column: 1 });
    assert_eq!(start.add('\n'), SourceLocation { character: 1, line: 1, column: 0 });
    assert_eq!(
        start.add('a').add('\n').add('b'),
        SourceLocation { character: 3, line: 1, column: 1 }
    );
}

#[test]
fn last_seen_location_stays_on_last_character() {
    let mut crawler = SourceCrawler::new("ab").unwrap();
    assert_eq!(crawler.last_seen_location(), SourceLocation::start());
    crawler.next();
    crawler.next();
    assert!(crawler.next().is_none());
    assert_eq!(
        crawler.last_seen_location(),
        SourceLocation { character: 1, line: 0, column: 1 }
    );
}

#[test]
fn lines_of_a_location() {
    let text = "first\nsecond\r\n\nfourth\n";
    let at = |line| SourceLocation { character: 0, line, column: 0 };
    assert_eq!(at(0).extract(text).as_deref(), Some("first"));
    assert_eq!(at(1).extract(text).as_deref(), Some("second"));
    assert_eq!(at(2).extract(text).as_deref(), Some(""));
    assert_eq!(at(3).extract(text).as_deref(), Some("fourth"));
    assert_eq!(at(4).extract(text), None);
    assert_eq!(at(0).extract(""), None);
    assert_eq!(at(0).extract("\n").as_deref(), Some(""));
    assert_eq!(at(1).extract("\n"), None);
    assert_eq!(at(0).extract("a\rb\r").as_deref(), Some("a\rb\r"));
    for (k, line) in text.lines().enumerate() {
        assert_eq!(at(k).extract(text).as_deref(), Some(line));
    }
}

#[test]
fn lines_of_a_range() {
    let text = "a\nb\nc\nd";
    let at = |line| SourceLocation { character: 0, line, column: 0 };
    let range = |from, to| stacklang::lang::SourceRange { start: at(from), end: at(to) };
    assert_eq!(
        range(1, 2).extract(text),
        vec![(1, "b".to_string()), (2, "c".to_string())]
    );
    assert_eq!(range(3, 9).extract(text), vec![(3, "d".to_string())]);
    assert_eq!(range(4, 9).extract(text), vec![]);
    assert_eq!(range(0, 0).extract(text), vec![(0, "a".to_string())]);
}

#[test]
fn a_position_steps_whatever_it_counts() {
    let here = SourceLocation { character: 3, line: 7, column: 9 };
    assert_eq!(here.add('x'), SourceLocation { character: 4, line: 7, column: 10 });
    assert_eq!(here.add('\n'), SourceLocation { character: 4, line: 8, column: 0 });
}
