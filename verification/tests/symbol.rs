use stacklang::lang::Symbol;

#[test]
fn symbol_debug() {
    let shown: String = [
        Symbol::Colon,
        Symbol::CurlyOpen,
        Symbol::CurlyClose,
        Symbol::ParenOpen,
        Symbol::ParenClose,
        Symbol::SquareOpen,
        Symbol::SquareClose,
        Symbol::Hash,
        Symbol::At,
        Symbol::LineEnd,
    ]
    .iter()
    .map(|s| s.to_char())
    .collect();
    assert_eq!(":{}()[]#@\u{2424}", &shown);
}

#[test]
fn symbols_read_back() {
    for c in [':', '{', '}', '(', ')', '[', ']', '#', '@', '~'] {
        assert_eq!(Symbol::from_char(c).unwrap().to_char(), c);
    }
    assert_eq!(Symbol::from_char('\n'), Some(Symbol::LineEnd));
    assert_eq!(Symbol::from_char('a'), None);
    assert_eq!(Symbol::from_char(' '), None);
}
