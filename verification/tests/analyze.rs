use stacklang::analyze::{
    analyze_block_in_namespace, analyze_program, AnalysisError, BlockAnalysisResult,
};
use stacklang::lang::{Module, Number};
use stacklang::parse_error::ParseError;
use stacklang::parser::parse;
use stacklang::program::Program;
use stacklang::tokenizer::{scan, tokenize, words};

fn read_number(word: &str) -> Option<Number> {
    word.parse::<f64>().ok().map(|v| Number::from_bits(v.to_bits()))
}

fn parse_source(code: &str) -> Result<Module, ParseError> {
    let lexemes = scan(code).map_err(ParseError::Tokenization)?;
    let readings: Vec<Option<Number>> = words(&lexemes).iter().map(|w| read_number(w)).collect();
    parse(&tokenize(&lexemes, &readings))
}

fn analyze(code: &str, function: &str) -> Option<BlockAnalysisResult> {
    let ast = parse_source(code).unwrap();
    let program = Program::new_from_module(&ast);
    let mut all = analyze_program(&program);
    let index = program.namespaces[0].functions.iter().position(|f| f.name == function).unwrap();
    all.remove(0).remove(index)
}

fn assert_fn_arity(code: &str, expected_arity: &str) {
    let actual_arity = analyze(code, "fn").unwrap().unwrap().stringify();
    assert_eq!(actual_arity, expected_arity);
}

fn assert_fn_unset(code: &str) {
    assert_eq!(analyze(code, "fn"), None);
}

fn assert_fn_err(code: &str, expected_error: AnalysisError) {
    assert_eq!(analyze(code, "fn"), Some(Err(expected_error)));
}

fn body_arity(code: &str) -> BlockAnalysisResult {
    let ast = parse_source(code).unwrap();
    let program = Program::new_from_module(&ast);
    let all = analyze_program(&program);
    analyze_block_in_namespace(&all, 0, &ast.body, &program)
}

#[test]
fn basic_numbers() {
    assert_fn_arity("fn: {1 1}", "- n n");
}

#[test]
fn test_analyze_basic_add() {
    assert_fn_arity("fn: {+}", "n n - n");
}

#[test]
fn nested_function() {
    assert_fn_arity("fn2: {+} fn: {fn2 fn2}", "n n n - n");
}

#[test]
fn recursive_function() {
    assert_fn_unset("fn: {fn}");
}

#[test]
fn mutually_recursive_function() {
    assert_fn_unset("fn: {fn2} fn2: {fn}");
}

#[test]
fn complex_function1() {
    assert_fn_arity("fn: {1 + !}", "n - b");
}

#[test]
fn complex_function2() {
    assert_fn_arity("fn: {1 + ! 3 &&}", "n - u");
}

#[test]
fn literals() {
    assert_fn_arity("fn: {1 true \"test\"}", "- n b s");
}

#[test]
fn branch_1() {
    assert_fn_arity("fn: {{(0) undefined (1) 3}}", "- n");
}

#[test]
fn branch_2() {
    assert_fn_arity(
        "fn: {{(0) undefined (false) null (1) 3 (false) true}}",
        "- n",
    );
}

#[test]
fn branch_3() {
    assert_fn_arity("fn: {{(0 !) 1 (0 !) 2 (1) 3}}", "- n");
}

#[test]
fn branch_4() {
    assert_fn_arity("fn: {{(1) true (dup) - - - - () 1 1 1 1}}", "- b");
}

#[test]
fn branch_5() {
    assert_fn_arity(
        r"
fn: {
  {
(1) true
(dup) - - - -
(drop drop drop)
  }
}",
        "- b",
    );
}

#[test]
fn branch_6() {
    assert_fn_arity(
        r"
fn: {
  {
(0) true
(0) - - - -
(0)
  }
}",
        "-",
    );
}

#[test]
fn branch_7() {
    assert_fn_arity(
        r#"
fn: {
  {
(0) true
(1) "hi"
(0)
  }
}"#,
        "- s",
    );
}

#[test]
fn branch_8() {
    assert_fn_arity(
        r#"
fn: {
  {
(dup) true
(1) "hi"
(0)
  }
}"#,
        "0 - 0 u",
    );
}

#[test]
fn branch_9() {
    assert_fn_arity(
        r#"
fn: {
  {
(1 1 -) true
(1) "hi"
(0)
  }
}"#,
        "- u",
    );
}

#[test]
fn branch_10() {
    assert_fn_err(
        r#"
fn: {
  {
(1 1 -) true
(0) "hi"
(0)
(1 1 -) false
  }
}"#,
        AnalysisError::IndefiniteSize,
    );
}

#[test]
fn branch_11() {
    assert_fn_arity(
        r#"
fn: {
  {
("") 1
(0 1) "string"
(1) 1 1 1
  }
}"#,
        "- n s",
    );
}

#[test]
fn branch_12() {
    assert_fn_arity(
        r#"
fn: {
  {
("") 1
("a") 1 1
(1) 1 1 1
  }
}"#,
        "- n n",
    );
}

#[test]
fn branch_13() {
    assert_fn_arity(
        r#"
fn: {
  {
("") 1
(true) 1 1
(1) 1 1 1
  }
}"#,
        "- n n",
    );
}

#[test]
fn branch_14() {
    assert_fn_err(
        r"
fn: {
  {
() 0 0 substring
(1) 0 +
  }
}",
        AnalysisError::IncompatibleTypes,
    );
}

#[test]
fn branch_15() {
    assert_fn_unset(
        r"
fn1: fn1
fn: {
  {
() 0 0 substring
(1) fn1 0 +
  }
}",
    );
}

#[test]
fn branch_16() {
    assert_fn_arity(
        r"
fn1: 3

fn: {
  {
(false) substring
(@fn1) fn1 0 +
  }
}",
        "- n",
    );
}

#[test]
fn loop_1() {
    assert_fn_arity("fn: {[(dup) 1 -]}", "n - n");
}

#[test]
fn loop_2() {
    assert_fn_arity("fn: {[(dup) swap]}", "1 0 - 0|1 0|1");
}

#[test]
fn loop_3() {
    assert_fn_arity("fn: {[(dup) swap]}", "1 0 - 0|1 0|1");
}

#[test]
fn loop_4() {
    assert_fn_err("fn: {[(dup) 1]}", AnalysisError::IndefiniteSize);
}

#[test]
fn loop_5() {
    assert_fn_err("fn: [1]", AnalysisError::IndefiniteSize);
}

#[test]
fn loop_6() {
    assert_fn_err("fn: [() 1 1 1 ()]", AnalysisError::IndefiniteSize);
}

#[test]
fn loop_7() {
    assert_fn_arity("fn: [1 ()]", "-");
}

#[test]
fn loop_8() {
    assert_fn_arity("fn: [(readline) print] drop", "-");
}

#[test]
fn loop_9() {
    assert_fn_err(
        "fn: [(readline) print (readline)]",
        AnalysisError::IndefiniteSize,
    );
}

#[test]
fn loop_10() {
    assert_fn_err(
        "fn: [(readline) print (readline drop)] drop",
        AnalysisError::IndefiniteSize,
    );
}

#[test]
fn loop_11() {
    assert_fn_err(
        "fn: [(readline) print (1)] drop",
        AnalysisError::IndefiniteSize,
    );
}

#[test]
fn test_intrinsic_or() {
    assert_fn_arity("fn: {||}", "1 0 - 0|1");
}

#[test]
fn test_intrinsic_and() {
    assert_fn_arity("fn: {&&}", "1 0 - 0|1");
}

#[test]
fn test_intrinsic_swap() {
    assert_fn_arity("fn: {swap}", "1 0 - 0 1");
}

#[test]
fn test_intrinsic_dup() {
    assert_fn_arity("fn: {dup}", "0 - 0 0");
}

#[test]
fn test_intrinsic_over() {
    assert_fn_arity("fn: {over}", "1 0 - 1 0 1");
}

#[test]
fn test_intrinsic_rot() {
    assert_fn_arity("fn: {rot}", "2 1 0 - 1 0 2");
}

#[test]
fn test_intrinsic_drop() {
    assert_fn_arity("fn: {drop}", "u -");
}

#[test]
fn test_generic_1() {
    assert_fn_arity("fn: {swap swap}", "1 0 - 1 0");
}

#[test]
fn test_generic_2() {
    assert_fn_arity("fn: {swap +}", "n n - n");
}

#[test]
fn test_generic_3() {
    assert_fn_arity("fn: {swap ++}", "n 0 - 0 n");
}

#[test]
fn test_generic_4() {
    assert_fn_arity("fn: {dup ++}", "n - n n");
}

#[test]
fn test_generic_5() {
    assert_fn_arity("fn: {1 dup}", "- n n");
}

#[test]
fn test_generic_6() {
    assert_fn_arity(
        r#"
fn: {
  ==
  {
()  "pass " join
(1) "fail " join
  }
}
 "#,
        "u u u - s",
    );
}

#[test]
fn test_generic_7() {
    assert_fn_arity(
        r"
fn: {
  swap ++ swap
}
 ",
        "n 0 - n 0",
    );
}

#[test]
fn test_generic_8() {
    assert_fn_arity(
        r#"
fail: {
  swap ++ swap
}

fn: {
  ==
  {
()  "pass " join
(1) "fail " join fail
  }
}
 "#,
        "n u u u - n s",
    );
}

#[test]
fn test_generic_9() {
    assert_fn_arity(
        r#"
fail: {
  swap ++ swap
}

fn: {
  ==
  {
(0)  "pass " join
(1) "fail " join fail
  }
}
 "#,
        "n u u - n s",
    );
}

#[test]
fn test_generic_10() {
    assert_fn_arity(
        r#"
fail: {
  swap ++ swap
}

fn: {
  1
  {
()  "pass " join
(1) "fail " join fail
  }
}
 "#,
        "n u - n s",
    );
}

#[test]
fn unresolved_1() {
    assert_fn_unset(
        r"
fn: {
  1
  fn
  drop
}
 ",
    );
}

#[test]
fn unresolved_2() {
    assert_fn_unset(
        r"
fn1: fn

fn: {
  1
  fn1
  +
}
 ",
    );
}

#[test]
fn unresolved_3() {
    assert_fn_unset(
        r"
fn1: fn1

fn: {
  [(fn1) print]
}
 ",
    );
}

#[test]
fn unresolved_4() {
    assert_fn_err(
        r"
fn: {
  [(fn1) print]
}
     ",
        AnalysisError::IndefiniteSize,
    );
}

#[test]
fn intrinsic_1() {
    assert_fn_arity(
        r"
fn: substring
 ",
        "s n n - s",
    );
}

#[test]
fn intrinsic_2() {
    assert_fn_arity(
        r"
fn: 3 substring
 ",
        "s n - s",
    );
}

#[test]
fn intrinsic_3() {
    assert_fn_arity(
        r"
fn: 0 3 substring
 ",
        "s - s",
    );
}

#[test]
fn body_of_a_module() {
    assert_eq!(body_arity("420 42 +").unwrap().stringify(), "- n");
    assert_eq!(body_arity("f: {+} 1 f").unwrap().stringify(), "n - n");
    assert_eq!(body_arity("{ (1) \"a\" (0) \"b\" (1) \"c\" }").unwrap().stringify(), "- s");
    assert_eq!(body_arity("[ 1 ]"), Err(AnalysisError::IndefiniteSize));
    assert_eq!(body_arity("1 eval"), Err(AnalysisError::IndefiniteSize));
    assert_eq!(body_arity("swap +").unwrap().stringify(), "n n - n");
    assert_eq!(body_arity("dup ++").unwrap().stringify(), "n - n n");
    assert_eq!(body_arity("swap ++").unwrap().stringify(), "n 0 - 0 n");
    assert_eq!(body_arity("1 'a' +"), Err(AnalysisError::IncompatibleTypes));
}

#[test]
fn recursive_fibonacci_stays_pending() {
    let code = "rfib: { { (dup 1 >) 1 - dup rfib swap 1 - rfib + } } 5 rfib";
    assert_eq!(analyze(code, "rfib"), None);
    assert_eq!(body_arity(code), Err(AnalysisError::Pending));
}

#[test]
fn iterative_fibonacci() {
    let code = "ifib: { 0 1 [ (rot dup) 1 - rot rot dup rot + ] drop drop } 20 ifib";
    assert_eq!(analyze(code, "ifib").unwrap().unwrap().stringify(), "n - n");
    assert_eq!(body_arity(code).unwrap().stringify(), "- n");
}

#[test]
fn captures_are_analysed() {
    assert_eq!(analyze("fn: { ~a~ a a }", "fn").unwrap().unwrap().stringify(), "0 - 0 0");
    assert_eq!(analyze("fn: { ~a b~ a b + }", "fn").unwrap().unwrap().stringify(), "n n - n");
    assert_eq!(
        analyze("fn: { a }", "fn"),
        Some(Err(AnalysisError::MissingDeclaration(vec!["a".to_string()])))
    );
    assert_eq!(
        analyze("fn: { a ~a~ b }", "fn"),
        Some(Err(AnalysisError::MissingDeclaration(vec!["a".to_string(), "b".to_string()])))
    );
    assert_eq!(
        analyze("fn: { { (dup) ~a~ (1) drop } a }", "fn"),
        Some(Err(AnalysisError::MissingDeclaration(vec!["a".to_string()])))
    );
}

#[test]
fn functions_resolve_in_later_rounds() {
    let code = "a: b b\nb: c 1 +\nc: 2\nfn: a";
    assert_fn_arity(code, "- n n");
    assert_eq!(analyze(code, "a").unwrap().unwrap().stringify(), "- n n");
}
