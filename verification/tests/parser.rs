use stacklang::lang::{
    Block, Branch, Function, Import, ImportLocation, ImportNaming, Loop, Module, Number,
    SourceLocation, SourceRange, Symbol, Term,
};
use stacklang::parse_error::{
    EndOfFileError, ParseError, ParseSection, ReasonExpectingMore, UnexpectedContext,
    UnexpectedError, WrappedExpression,
};
use stacklang::parser::parse;
use stacklang::tokenizer::{scan, tokenize, words};

fn read_number(word: &str) -> Option<Number> {
    word.parse::<f64>().ok().map(|v| Number::from_bits(v.to_bits()))
}

fn parse_source(code: &str) -> Result<Module, ParseError> {
    let lexemes = scan(code).map_err(ParseError::Tokenization)?;
    let readings: Vec<Option<Number>> = words(&lexemes).iter().map(|w| read_number(w)).collect();
    parse(&tokenize(&lexemes, &readings))
}

fn num(v: f64) -> Term {
    Term::Number(Number::from_bits(v.to_bits()))
}

fn name<T: Into<String>>(t: T) -> Term {
    Term::Name(
        t.into(),
        SourceRange {
            start: SourceLocation::start(),
            end: SourceLocation::start(),
        },
    )
}

#[test]
fn test_parser_basic_add() {
    let ast = Module {
        body: Block {
            terms: vec![num(420.0), num(42.0), name("+")],
        },
        ..Default::default()
    };

    let code = r"420 42 +";
    let result = parse_source(code).unwrap();
    assert_eq!(result, ast);
}

#[test]
fn test_parser_basic_subtract() {
    let ast = Module {
        body: Block {
            terms: vec![num(420.0), num(42.0), name("-")],
        },
        ..Default::default()
    };

    let code = r"420 42 -";
    let result = parse_source(code).unwrap();
    assert_eq!(result, ast);
}

#[test]
fn test_parser_basic_multiply() {
    let ast = Module {
        body: Block {
            terms: vec![num(20.0), num(4.0), name("*")],
        },
        ..Default::default()
    };

    let code = r"20 4 *";
    let result = parse_source(code).unwrap();
    assert_eq!(result, ast);
}

#[test]
fn test_parser_basic_divide() {
    let ast = Module {
        body: Block {
            terms: vec![num(20.0), num(4.0), name("/")],
        },
        ..Default::default()
    };

    let code = r"20 4 /";
    let result = parse_source(code).unwrap();
    assert_eq!(result, ast);
}

#[test]
fn test_parser_basic_or() {
    let ast = Module {
        body: Block {
            terms: vec![Term::Bool(true), Term::Bool(false), name("||")],
        },
        ..Default::default()
    };

    let code = r"true false ||";
    let result = parse_source(code).unwrap();
    assert_eq!(result, ast);
}

#[test]
fn test_parser_basic_or2() {
    let ast = Module {
        body: Block {
            terms: vec![Term::Bool(false), Term::Bool(false), name("||")],
        },
        ..Default::default()
    };

    let code = r"false false ||";
    let result = parse_source(code).unwrap();
    assert_eq!(result, ast);
}

#[test]
fn test_parser_basic_or3() {
    let ast = Module {
        body: Block {
            terms: vec![Term::Bool(true), Term::Bool(true), name("||")],
        },
        ..Default::default()
    };

    let code = r"true true ||";
    let result = parse_source(code).unwrap();
    assert_eq!(result, ast);
}

#[test]
fn test_parser_basic_and() {
    let ast = Module {
        body: Block {
            terms: vec![Term::Bool(true), Term::Bool(false), name("&&")],
        },
        ..Default::default()
    };

    let code = r"true false &&";
    let result = parse_source(code).unwrap();
    assert_eq!(result, ast);
}

#[test]
fn test_parser_basic_and2() {
    let ast = Module {
        body: Block {
            terms: vec![Term::Bool(false), Term::Bool(false), name("&&")],
        },
        ..Default::default()
    };

    let code = r"false false &&";
    let result = parse_source(code).unwrap();
    assert_eq!(result, ast);
}

#[test]
fn test_parser_basic_and3() {
    let ast = Module {
        body: Block {
            terms: vec![Term::Bool(true), Term::Bool(true), name("&&")],
        },
        ..Default::default()
    };

    let code = r"true true &&";
    let result = parse_source(code).unwrap();
    assert_eq!(result, ast);
}

#[test]
fn test_parser_function_call() {
    let ast = Module {
        functions: vec![Function {
            name: "generate".into(),
            body: Block {
                terms: vec![num(36.0), num(6.0), name("+")],
            },
        }],
        body: Block {
            terms: vec![name("generate")],
        },
        ..Default::default()
    };

    let code = r"generate: {36 6 +} generate";
    let result = parse_source(code).unwrap();
    assert_eq!(result, ast);
}

#[test]
fn test_parser_fib_recursive() {
    let ast = Module {
        functions: vec![Function {
            name: "rfib".into(),
            body: Block {
                terms: vec![Term::Branch(Branch {
                    arms: vec![(
                        Block {
                            terms: vec![name("dup"), num(1.0), name(">")],
                        },
                        Block {
                            terms: vec![
                                num(1.0),
                                name("-"),
                                name("dup"),
                                name("rfib"),
                                name("swap"),
                                num(1.0),
                                name("-"),
                                name("rfib"),
                                name("+"),
                            ],
                        },
                    )],
                })],
            },
        }],
        body: Block {
            terms: vec![num(5.0), name("rfib")],
        },
        ..Default::default()
    };

    let code = r"rfib: {{(dup 1 >) 1 - dup rfib swap 1 - rfib + }} 5 rfib";
    let result = parse_source(code).unwrap();
    assert_eq!(result, ast);
}

#[test]
fn test_parser_fib_iterative() {
    let ast = Module {
        functions: vec![Function {
            name: "ifib".into(),
            body: Block {
                terms: vec![
                    num(0.0),
                    num(1.0),
                    Term::Loop(Loop {
                        pre_condition: Some(Block {
                            terms: vec![name("rot"), name("dup")],
                        }),
                        post_condition: None,
                        body: Block {
                            terms: vec![
                                num(1.0),
                                name("-"),
                                name("rot"),
                                name("rot"),
                                name("dup"),
                                name("rot"),
                                name("+"),
                            ],
                        },
                    }),
                    name("drop"),
                    name("drop"),
                ],
            },
        }],
        body: Block {
            terms: vec![num(20.0), name("ifib")],
        },
        ..Default::default()
    };

    let code = r"ifib: {0 1 [(rot dup) 1 - rot rot dup rot +] drop drop} 20 ifib";
    let result = parse_source(code).unwrap();
    assert_eq!(result, ast);
}

#[test]
fn comments_1() {
    let code = r"
    1
    // comment
2 // comment 2
3
    ";

    let ast = Module {
        body: Block {
            terms: vec![num(1.0), num(2.0), num(3.0)],
        },
        ..Default::default()
    };
    let result = parse_source(code).unwrap();
    assert_eq!(result, ast);
}

#[test]
fn comments_2() {
    let code = "1//1\n2//2\n3//3";

    let ast = Module {
        body: Block {
            terms: vec![num(1.0), num(2.0), num(3.0)],
        },
        ..Default::default()
    };
    let result = parse_source(code).unwrap();
    assert_eq!(result, ast);
}

#[test]
fn imports_1() {
    let code = r#"
# {name1 name2} "./1.sl" 
# scope "./2.sl"
# * "./3.sl"
    "#;

    let ast = Module {
        imports: vec![
            Import {
                naming: ImportNaming::Named(vec!["name1".into(), "name2".into()]),
                location: ImportLocation::Relative("./1.sl".into()),
            },
            Import {
                naming: ImportNaming::Scoped("scope".into()),
                location: ImportLocation::Relative("./2.sl".into()),
            },
            Import {
                naming: ImportNaming::Wildcard,
                location: ImportLocation::Relative("./3.sl".into()),
            },
        ],
        ..Default::default()
    };
    let result = parse_source(code).unwrap();
    assert_eq!(result, ast);
}

#[test]
fn imports_2() {
    let code = r#"
# {name1 name2} "./1.sl" 
    "#;

    let ast = Module {
        imports: vec![Import {
            naming: ImportNaming::Named(vec!["name1".into(), "name2".into()]),
            location: ImportLocation::Relative("./1.sl".into()),
        }],
        ..Default::default()
    };
    let result = parse_source(code).unwrap();
    assert_eq!(result, ast);
}

#[test]
fn imports_3() {
    let code = r#"
# scope "./2.sl"
    "#;

    let ast = Module {
        imports: vec![Import {
            naming: ImportNaming::Scoped("scope".into()),
            location: ImportLocation::Relative("./2.sl".into()),
        }],
        ..Default::default()
    };
    let result = parse_source(code).unwrap();
    assert_eq!(result, ast);
}

#[test]
fn imports_4() {
    let code = r#"
# * "./3.sl"
    "#;

    let ast = Module {
        imports: vec![Import {
            naming: ImportNaming::Wildcard,
            location: ImportLocation::Relative("./3.sl".into()),
        }],
        ..Default::default()
    };
    let result = parse_source(code).unwrap();
    assert_eq!(result, ast);
}

#[test]
fn single_character() {
    let code = "4";
    let result = parse_source(code).unwrap();
    let ast = Module {
        body: Block {
            terms: vec![num(4.0)],
        },
        ..Default::default()
    };
    assert_eq!(result, ast);
}

#[test]
fn multiline_1() {
    let code = r"
/* 1 */
";
    let result = parse_source(code).unwrap();
    let ast = Module {
        body: Block { terms: vec![] },
        ..Default::default()
    };
    assert_eq!(result, ast);
}

#[test]
fn multiline_2() {
    let code = r"
/* 1 / */
";
    let result = parse_source(code).unwrap();
    let ast = Module {
        body: Block { terms: vec![] },
        ..Default::default()
    };
    assert_eq!(result, ast);
}

#[test]
fn multiline_3() {
    let code = r"
/* 1 **/
";
    let result = parse_source(code).unwrap();
    let ast = Module {
        body: Block { terms: vec![] },
        ..Default::default()
    };
    assert_eq!(result, ast);
}

#[test]
fn multiline_4() {
    let code = r"
/* 1 * * */
";
    let result = parse_source(code).unwrap();
    let ast = Module {
        body: Block { terms: vec![] },
        ..Default::default()
    };
    assert_eq!(result, ast);
}

#[test]
fn multiline_5() {
    let code = r"
/* 1 * * 

*/
";
    let result = parse_source(code).unwrap();
    let ast = Module {
        body: Block { terms: vec![] },
        ..Default::default()
    };
    assert_eq!(result, ast);
}

#[test]
fn multiline_6() {
    let code = r"
/*/ 1 * * 

*/
";
    let result = parse_source(code).unwrap();
    let ast = Module {
        body: Block { terms: vec![] },
        ..Default::default()
    };
    assert_eq!(result, ast);
}

#[test]
fn multiline_7() {
    let code = r"
/*/ 1 * * 

*/4
";
    let result = parse_source(code).unwrap();
    let ast = Module {
        body: Block {
            terms: vec![num(4.0)],
        },
        ..Default::default()
    };
    assert_eq!(result, ast);
}

#[test]
fn multiline_8() {
    let code = r"
5/*/ 1 * * 

*/
";
    let result = parse_source(code).unwrap();
    let ast = Module {
        body: Block {
            terms: vec![num(5.0)],
        },
        ..Default::default()
    };
    assert_eq!(result, ast);
}

#[test]
fn bad_symbols_1() {
    let symbols = [
        Symbol::CurlyClose,
        Symbol::SquareClose,
        Symbol::ParenClose,
        Symbol::ParenOpen,
        Symbol::Colon,
    ];

    for symbol in symbols {
        let result = parse_source(&symbol.to_char().to_string());
        assert_eq!(
            result,
            Err(ParseError::Unexpected(UnexpectedError::GeneralSymbol(
                symbol,
                SourceLocation::start()
            )))
        );
    }
}

#[test]
fn bad_symbols_2() {
    let symbols = [Symbol::Hash];

    for symbol in symbols {
        let result = parse_source(&format!("fn: {}", symbol.to_char()));
        assert_eq!(
            result,
            Err(ParseError::Unexpected(UnexpectedError::GeneralSymbol(
                symbol,
                SourceLocation {
                    line: 0,
                    character: 4,
                    column: 4
                },
            )))
        );
    }
}

fn at(character: usize) -> SourceLocation {
    SourceLocation { line: 0, character, column: character }
}

#[test]
fn captures_are_reversed() {
    let result = parse_source("1 2 ~a b~ a").unwrap();
    let ast = Module {
        body: Block {
            terms: vec![
                num(1.0),
                num(2.0),
                Term::Capture("b".into(), SourceRange::at(at(0))),
                Term::Capture("a".into(), SourceRange::at(at(0))),
                name("a"),
            ],
        },
        ..Default::default()
    };
    assert_eq!(result, ast);
}

#[test]
fn addresses() {
    let result = parse_source("@f f: 1").unwrap();
    let ast = Module {
        functions: vec![Function { name: "f".into(), body: Block { terms: vec![num(1.0)] } }],
        body: Block { terms: vec![Term::Address("f".into())] },
        ..Default::default()
    };
    assert_eq!(result, ast);
}

#[test]
fn loops_with_conditions() {
    let result = parse_source("[(a) b (c)] [d (e)] [(f) g]").unwrap();
    let block = |n: &str| Block { terms: vec![name(n)] };
    let ast = Module {
        body: Block {
            terms: vec![
                Term::Loop(Loop {
                    pre_condition: Some(block("a")),
                    body: block("b"),
                    post_condition: Some(block("c")),
                }),
                Term::Loop(Loop {
                    pre_condition: None,
                    body: block("d"),
                    post_condition: Some(block("e")),
                }),
                Term::Loop(Loop {
                    pre_condition: Some(block("f")),
                    body: block("g"),
                    post_condition: None,
                }),
            ],
        },
        ..Default::default()
    };
    assert_eq!(result, ast);
}

#[test]
fn functions_in_three_forms() {
    let result = parse_source("a:\nb: 1 2\nc: {\n 3\n}\n4").unwrap();
    let ast = Module {
        functions: vec![
            Function { name: "a".into(), body: Block { terms: vec![] } },
            Function { name: "b".into(), body: Block { terms: vec![num(1.0), num(2.0)] } },
            Function { name: "c".into(), body: Block { terms: vec![num(3.0)] } },
        ],
        body: Block { terms: vec![num(4.0)] },
        ..Default::default()
    };
    assert_eq!(result, ast);
}

#[test]
fn trailing_whitespace_is_ignored() {
    for code in ["1 2 +", "f: {1} f", "# * './a.sl'\n2", "{(1) 2}"] {
        let plain = parse_source(code).unwrap();
        for tail in [" ", "\n", "  \n\n  ", "\n // done", " /* done */ "] {
            assert_eq!(parse_source(&format!("{code}{tail}")).unwrap(), plain, "{code:?}");
        }
    }
}

#[test]
fn end_of_file_errors() {
    let eof = |e| Err(ParseError::EndOfFile(e));
    assert_eq!(
        parse_source("{(1) 2"),
        eof(EndOfFileError::UnclosedExpression(WrappedExpression::Branch, at(0)))
    );
    assert_eq!(
        parse_source("{(1 2"),
        eof(EndOfFileError::UnclosedExpression(WrappedExpression::Condition, at(0)))
    );
    assert_eq!(
        parse_source("1 [2"),
        eof(EndOfFileError::UnclosedExpression(WrappedExpression::Loop, at(2)))
    );
    assert_eq!(
        parse_source("f: {1"),
        eof(EndOfFileError::UnclosedExpression(WrappedExpression::Function, at(3)))
    );
    assert_eq!(
        parse_source("# {a b"),
        eof(EndOfFileError::UnclosedExpression(WrappedExpression::ImportNameList, at(2)))
    );
    assert_eq!(
        parse_source("~a b"),
        eof(EndOfFileError::UnclosedExpression(WrappedExpression::Capture, at(0)))
    );
    assert_eq!(
        parse_source("1 @"),
        eof(EndOfFileError::ExpectedMoreAfter(ReasonExpectingMore::Address, at(2)))
    );
    assert_eq!(
        parse_source("{"),
        eof(EndOfFileError::ExpectedMoreAfter(ReasonExpectingMore::Branch, at(0)))
    );
    assert_eq!(
        parse_source("#"),
        eof(EndOfFileError::ExpectedMoreAfter(ReasonExpectingMore::ImportName, at(0)))
    );
    assert_eq!(
        parse_source("# a"),
        eof(EndOfFileError::ExpectedMoreAfter(ReasonExpectingMore::ImportPath, at(0)))
    );
    for code in ["{(1) 2", "1 [2", "f: {1", "# {a b", "~a b", "1 @", "{", "#", "# a", "'a"] {
        assert!(parse_source(code).unwrap_err().is_early_eof(), "{code:?}");
    }
    for code in ["}", "1 @ 2", "/* a", "'\\q'"] {
        assert!(!parse_source(code).unwrap_err().is_early_eof(), "{code:?}");
    }
}

#[test]
fn unexpected_in_context() {
    let ctx = |context, context_start, loc| {
        Err(ParseError::Unexpected(UnexpectedError::InContext { context, context_start, loc }))
    };
    assert_eq!(parse_source("{1}"), ctx(UnexpectedContext::FirstInBranch, at(0), at(1)));
    assert_eq!(parse_source("@ 1"), ctx(UnexpectedContext::Address, at(0), at(2)));
    assert_eq!(
        parse_source("[1 (2) 3]"),
        ctx(UnexpectedContext::AfterPostCondition, at(3), at(7))
    );
    assert_eq!(parse_source("# {a 1} 'x'"), ctx(UnexpectedContext::ImportNameList, at(2), at(5)));
    assert_eq!(parse_source("# 1 'x'"), ctx(UnexpectedContext::ImportNaming, at(0), at(2)));
    assert_eq!(parse_source("# a b"), ctx(UnexpectedContext::ImportPath, at(0), at(4)));
    assert_eq!(parse_source("~a 1~"), ctx(UnexpectedContext::Capture, at(0), at(3)));
    assert_eq!(parse_source("~~"), ctx(UnexpectedContext::Capture, at(0), at(1)));
}

#[test]
fn symbols_in_sections() {
    let sec = |section, section_start, symbol, symbol_location| {
        Err(ParseError::Unexpected(UnexpectedError::SymbolInSection {
            section,
            section_start,
            symbol,
            symbol_location,
        }))
    };
    assert_eq!(
        parse_source("{(1 } 2}"),
        sec(ParseSection::Condition, at(0), Symbol::CurlyClose, at(4))
    );
    assert_eq!(
        parse_source("{(1 ] 2}"),
        sec(ParseSection::Condition, at(0), Symbol::SquareClose, at(4))
    );
    assert_eq!(
        parse_source("{(1) 2 ]"),
        sec(ParseSection::Branch, at(0), Symbol::SquareClose, at(7))
    );
    assert_eq!(
        parse_source("{(1) 2 )"),
        sec(ParseSection::Branch, at(0), Symbol::ParenClose, at(7))
    );
    assert_eq!(parse_source("[1 }"), sec(ParseSection::Loop, at(0), Symbol::CurlyClose, at(3)));
    assert_eq!(parse_source("[1 )"), sec(ParseSection::Loop, at(0), Symbol::ParenClose, at(3)));
}

#[test]
fn error_details() {
    let details = parse_source("}").unwrap_err().into_details();
    assert_eq!(details.message, "Unexpected symbol: }");
    assert_eq!(
        details.info.as_deref(),
        Some("The } symbol is only used to close branch or function blocks")
    );
    let details = parse_source("{(1 ] 2}").unwrap_err().into_details();
    assert_eq!(details.message, "Unexpected ] in condition");
    assert_eq!(details.info, None);
    assert_eq!(details.range.start.character, 0);
    assert_eq!(details.range.end.character, 4);
    let details = parse_source("[1").unwrap_err().into_details();
    assert_eq!(details.message, "End of file reached before close of loop");
    assert_eq!(details.info.as_deref(), Some("Loops are closed using ]"));
    let details = parse_source("'a").unwrap_err().into_details();
    assert_eq!(details.message, "Unclosed string literal");
    let details = parse_source("'\\q'").unwrap_err().into_details();
    assert_eq!(details.message, "Invalid string escape character");
    assert_eq!(details.range.start.character, 2);
    let details = parse_source("@ 1").unwrap_err().into_details();
    assert_eq!(details.message, "Invalid function pointer");
    assert_eq!(details.range.end.character, 0);
    let details = parse_source("{1}").unwrap_err().into_details();
    assert_eq!(details.message, "Branch must start with a condition");
    assert_eq!(details.range.end.character, 1);
    let details = parse_source("(").unwrap_err().into_details();
    assert_eq!(details.message, "Unexpected symbol: (");
    assert_eq!(details.info, None);
}
