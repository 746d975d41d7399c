use stacklang::interpreter::{BacktraceItem, Interpreter, Reply, Request, Status};
use stacklang::intrinsics::Intrinsic;
use stacklang::lang::string::CharString;
use stacklang::lang::{
    Block, Branch, Function, ImportNaming, Loop, Module, Number, SourceLocation, SourceRange,
    Term, Value,
};
use stacklang::parse_error::ParseError;
use stacklang::parser::parse;
use stacklang::program::{NamespaceImport, Program};
use stacklang::tokenizer::{scan, tokenize, words};

fn num(v: f64) -> Number {
    Number::from_bits(v.to_bits())
}

fn val(n: Number) -> f64 {
    f64::from_bits(n.to_bits())
}

fn lit(v: f64) -> Term {
    Term::Number(num(v))
}

fn read_number(word: &str) -> Option<Number> {
    word.parse::<f64>().ok().map(|v| Number::from_bits(v.to_bits()))
}

fn parse_source(code: &str) -> Result<Module, ParseError> {
    let lexemes = scan(code).map_err(ParseError::Tokenization)?;
    let readings: Vec<Option<Number>> = words(&lexemes).iter().map(|w| read_number(w)).collect();
    parse(&tokenize(&lexemes, &readings))
}

fn to_index(v: f64) -> Option<usize> {
    if !v.is_finite() || v > 9007199254740991f64 || v < 0f64 || v.fract() != 0f64 {
        return None;
    }
    Some(v as usize)
}

struct Host {
    input: Vec<String>,
    output: Vec<String>,
}

impl Host {
    fn answer(&mut self, request: Request) -> Reply {
        match request {
            Request::Binary(i, a, b) => {
                let (a, b) = (val(a), val(b));
                match i {
                    Intrinsic::Plus => Reply::Number(num(a + b)),
                    Intrinsic::Minus => Reply::Number(num(a - b)),
                    Intrinsic::Times => Reply::Number(num(a * b)),
                    Intrinsic::Divide => Reply::Number(num(a / b)),
                    Intrinsic::Modulo => Reply::Number(num(a % b)),
                    Intrinsic::Pow => Reply::Number(num(a.powf(b))),
                    Intrinsic::Greater => Reply::Bool(a > b),
                    Intrinsic::Less => Reply::Bool(a < b),
                    Intrinsic::Equals => Reply::Bool(a == b),
                    _ => Reply::Failed("not an operation on two numbers".into()),
                }
            }
            Request::Unary(i, a) => match i {
                Intrinsic::Increment => Reply::Number(num(val(a) + 1f64)),
                Intrinsic::Decrement => Reply::Number(num(val(a) - 1f64)),
                _ => Reply::Failed("not an operation on one number".into()),
            },
            Request::ToIndex(n) => Reply::Index(to_index(val(n))),
            Request::FromIndex(i) => {
                if i > 0x1F_FFFF_FFFF_FFFF {
                    Reply::Index(None)
                } else {
                    Reply::Number(num(i as f64))
                }
            }
            Request::Show(n) => Reply::Text(format!("{}", val(n))),
            Request::Print(text) => {
                self.output.push(text);
                Reply::Done
            }
            Request::ReadLine => {
                if self.input.is_empty() {
                    Reply::Line(None)
                } else {
                    Reply::Line(Some(self.input.remove(0)))
                }
            }
        }
    }
}

fn run_with(
    program: &Program,
    body: &Block,
    host: &mut Host,
) -> Result<Vec<Value>, (String, Vec<BacktraceItem>)> {
    let mut machine = Interpreter::begin(program);
    machine.start(body);
    let mut status = machine.step();
    loop {
        status = match status {
            Status::Running => machine.step(),
            Status::Waiting(request) => machine.resume(host.answer(request)),
            Status::Finished | Status::Failed => break,
        };
    }
    machine.finish().map(|s| s.stack)
}

fn execute(program: &Program, body: &Block) -> Result<Vec<Value>, (String, Vec<BacktraceItem>)> {
    run_with(program, body, &mut Host { input: vec![], output: vec![] })
}

fn interpret(ast: &Module) -> Vec<Value> {
    execute(&Program::new_from_module(ast), &ast.body).unwrap()
}

fn run(code: &str) -> Vec<Value> {
    interpret(&parse_source(code).unwrap())
}

fn fails(code: &str) -> String {
    let ast = parse_source(code).unwrap();
    execute(&Program::new_from_module(&ast), &ast.body).unwrap_err().0
}

fn text(s: &str) -> Value {
    Value::String(CharString::from_str(s))
}

fn number(v: f64) -> Value {
    Value::Number(num(v))
}

fn name<T: Into<String>>(t: T) -> Term {
    Term::Name(
        t.into(),
        SourceRange { start: SourceLocation::start(), end: SourceLocation::start() },
    )
}

#[test]
fn test_interpreter_basic_add() {
    let ast = Module {
        body: Block {
            terms: vec![lit(420.0), lit(42.0), name("+")],
        },
        ..Default::default()
    };

    let result = interpret(&ast);

    assert_eq!(result, vec![Value::Number(num(462.0))]);
}

#[test]
fn test_interpreter_basic_subtract() {
    let ast = Module {
        body: Block {
            terms: vec![lit(420.0), lit(42.0), name("-")],
        },
        ..Default::default()
    };

    let result = interpret(&ast);

    assert_eq!(result, vec![Value::Number(num(378.0))]);
}

#[test]
fn test_interpreter_basic_multiply() {
    let ast = Module {
        body: Block {
            terms: vec![lit(20.0), lit(4.0), name("*")],
        },
        ..Default::default()
    };

    let result = interpret(&ast);

    assert_eq!(result, vec![Value::Number(num(80.0))]);
}

#[test]
fn test_interpreter_basic_divide() {
    let ast = Module {
        body: Block {
            terms: vec![lit(20.0), lit(4.0), name("/")],
        },
        ..Default::default()
    };

    let result = interpret(&ast);

    assert_eq!(result, vec![Value::Number(num(5.0))]);
}

#[test]
fn test_interpreter_basic_or() {
    let ast = Module {
        body: Block {
            terms: vec![Term::Bool(true), Term::Bool(false), name("||")],
        },
        ..Default::default()
    };

    let result = interpret(&ast);

    assert_eq!(result, vec![Value::Bool(true)]);
}

#[test]
fn test_interpreter_basic_or2() {
    let ast = Module {
        body: Block {
            terms: vec![Term::Bool(false), Term::Bool(false), name("||")],
        },
        ..Default::default()
    };

    let result = interpret(&ast);

    assert_eq!(result, vec![Value::Bool(false)]);
}

#[test]
fn test_interpreter_basic_or3() {
    let ast = Module {
        body: Block {
            terms: vec![Term::Bool(true), Term::Bool(true), name("||")],
        },
        ..Default::default()
    };

    let result = interpret(&ast);

    assert_eq!(result, vec![Value::Bool(true)]);
}

#[test]
fn test_interpreter_basic_and() {
    let ast = Module {
        body: Block {
            terms: vec![Term::Bool(true), Term::Bool(false), name("&&")],
        },
        ..Default::default()
    };

    let result = interpret(&ast);

    assert_eq!(result, vec![Value::Bool(false)]);
}

#[test]
fn test_interpreter_basic_and2() {
    let ast = Module {
        body: Block {
            terms: vec![Term::Bool(false), Term::Bool(false), name("&&")],
        },
        ..Default::default()
    };

    let result = interpret(&ast);

    assert_eq!(result, vec![Value::Bool(false)]);
}

#[test]
fn test_interpreter_basic_and3() {
    let ast = Module {
        body: Block {
            terms: vec![Term::Bool(true), Term::Bool(true), name("&&")],
        },
        ..Default::default()
    };

    let result = interpret(&ast);

    assert_eq!(result, vec![Value::Bool(true)]);
}

#[test]
fn test_interpreter_function_call() {
    let ast = Module {
        functions: vec![Function {
            name: "generate".into(),
            body: Block {
                terms: vec![lit(36.0), lit(6.0), name("+")],
            },
        }],
        body: Block {
            terms: vec![name("generate")],
        },
        ..Default::default()
    };

    let result = interpret(&ast);

    assert_eq!(result, vec![Value::Number(num(42.0))]);
}

#[test]
fn test_interpreter_fib_recursive() {
    let ast = Module {
        functions: vec![Function {
            name: "rfib".into(),
            body: Block {
                terms: vec![Term::Branch(Branch {
                    arms: vec![(
                        Block {
                            terms: vec![name("dup"), lit(1.0), name(">")],
                        },
                        Block {
                            terms: vec![
                                lit(1.0),
                                name("-"),
                                name("dup"),
                                name("rfib"),
                                name("swap"),
                                lit(1.0),
                                name("-"),
                                name("rfib"),
                                name("+"),
                            ],
                        },
                    )],
                })],
            },
        }],
        body: Block {
            terms: vec![lit(5.0), name("rfib")],
        },
        ..Default::default()
    };

    let result = interpret(&ast);

    assert_eq!(result, vec![Value::Number(num(5.0))]);
}

#[test]
fn test_interpreter_fib_iterative() {
    let ast = Module {
        functions: vec![Function {
            name: "ifib".into(),
            body: Block {
                terms: vec![
                    lit(0.0),
                    lit(1.0),
                    Term::Loop(Loop {
                        pre_condition: Some(Block {
                            terms: vec![name("rot"), name("dup")],
                        }),
                        post_condition: None,
                        body: Block {
                            terms: vec![
                                lit(1.0),
                                name("-"),
                                name("rot"),
                                name("rot"),
                                name("dup"),
                                name("rot"),
                                name("+"),
                            ],
                        },
                    }),
                    name("drop"),
                    name("drop"),
                ],
            },
        }],
        body: Block {
            terms: vec![lit(20.0), name("ifib")],
        },
        ..Default::default()
    };

    let result = interpret(&ast);

    assert_eq!(result, vec![Value::Number(num(6765.0))]);
}

#[test]
fn imports() {
    let main = parse_source("helper1 helper2 helper3.helper3").unwrap();
    let helper1 = parse_source("helper1: 1").unwrap();
    let helper2 = parse_source("helper2: 2").unwrap();
    let helper3 = parse_source("helper3: 3").unwrap();

    let mut program = Program::new();

    let main_id = program.allocate_namespace();

    let helper1_id = program.allocate_namespace();
    program.add_functions(helper1_id, &helper1.functions);

    let helper2_id = program.allocate_namespace();
    program.add_functions(helper2_id, &helper2.functions);

    let helper3_id = program.allocate_namespace();
    program.add_functions(helper3_id, &helper3.functions);

    program.add_imports(
        main_id,
        vec![
            NamespaceImport {
                id: helper1_id,
                naming: ImportNaming::Wildcard,
            },
            NamespaceImport {
                id: helper2_id,
                naming: ImportNaming::Named(vec!["helper2".into()]),
            },
            NamespaceImport {
                id: helper3_id,
                naming: ImportNaming::Scoped("helper3".into()),
            },
        ],
    );

    let result = execute(&program, &main.body).unwrap();
    assert_eq!(result, vec![Value::Number(num(1.0)), Value::Number(num(2.0)), Value::Number(num(3.0))]);
}

#[test]
fn arithmetic_from_source() {
    assert_eq!(run("420 42 +"), vec![number(462.0)]);
    assert_eq!(run("7 2 %"), vec![number(1.0)]);
    assert_eq!(run("2 10 **"), vec![number(1024.0)]);
    assert_eq!(run("1 ++ ++ --"), vec![number(2.0)]);
    assert_eq!(run("1 2 > 1 2 < 2 2 =="), vec![Value::Bool(false), Value::Bool(true), Value::Bool(true)]);
}

#[test]
fn fibonacci_from_source() {
    assert_eq!(
        run("rfib: { { (dup 1 >) 1 - dup rfib swap 1 - rfib + } } 5 rfib"),
        vec![number(5.0)]
    );
    assert_eq!(
        run("ifib: { 0 1 [ (rot dup) 1 - rot rot dup rot + ] drop drop } 20 ifib"),
        vec![number(6765.0)]
    );
}

#[test]
fn first_truthy_arm_wins() {
    assert_eq!(run("{ (1) \"a\" (0) \"b\" (1) \"c\" }"), vec![text("a")]);
    assert_eq!(run("{ (0) \"a\" (1) \"b\" (1) \"c\" }"), vec![text("b")]);
    assert_eq!(run("{ (0) \"a\" (\"\") \"b\" }"), vec![]);
    assert_eq!(run("5 { (dup 3 >) 1 (dup 1 >) 2 }"), vec![number(5.0), number(1.0)]);
}

#[test]
fn loops_test_before_and_after() {
    assert_eq!(run("3 [(dup) 1 -]"), vec![number(0.0)]);
    assert_eq!(run("0 [1 + (dup 3 <)]"), vec![number(3.0)]);
    assert_eq!(run("0 [(dup 10 <) 1 + (dup 3 <)]"), vec![number(3.0)]);
}

#[test]
fn stack_operations() {
    assert_eq!(run("1 2 swap"), vec![number(2.0), number(1.0)]);
    assert_eq!(run("1 dup"), vec![number(1.0), number(1.0)]);
    assert_eq!(run("1 2 over"), vec![number(1.0), number(2.0), number(1.0)]);
    assert_eq!(run("1 2 3 rot"), vec![number(2.0), number(3.0), number(1.0)]);
    assert_eq!(run("1 2 drop"), vec![number(1.0)]);
    assert_eq!(run("1 ! 0 ! '' !"), vec![Value::Bool(false), Value::Bool(true), Value::Bool(true)]);
    assert_eq!(run("0 'x' || 'y' 0 && 1 2 && 3 4 ||"), vec![text("x"), number(0.0), number(2.0), number(3.0)]);
}

#[test]
fn string_operations() {
    assert_eq!(run("'hello world' 6 11 substring"), vec![text("world")]);
    assert_eq!(run("'hello' 3 99 substring"), vec![text("lo")]);
    assert_eq!(run("'hello' 4 2 substring"), vec![text("")]);
    assert_eq!(run("'h\u{e9}llo' length"), vec![number(5.0)]);
    assert_eq!(run("'A' to_char"), vec![number(65.0)]);
    assert_eq!(run("97 from_char"), vec![text("a")]);
    assert_eq!(run("'hello' 'll' index 'hello' 'x' index"), vec![number(2.0), number(-1.0)]);
    assert_eq!(run("'a' 1.5 join true join"), vec![text("a1.5true")]);
    assert_eq!(run("1 2 join"), vec![text("12")]);
    assert_eq!(run("'a' 'a' == 'a' 'b' == true false =="), vec![Value::Bool(true), Value::Bool(false), Value::Bool(false)]);
}

#[test]
fn function_pointers() {
    assert_eq!(run("f: 1 2 +\n@f eval"), vec![number(3.0)]);
    assert_eq!(run("1 2 @swap eval"), vec![number(2.0), number(1.0)]);
    assert_eq!(run("f: 7\n@f @eval eval"), vec![number(7.0)]);
    match &run("f: 1\n@f")[..] {
        [Value::Address(0, n)] => assert_eq!(n, "f"),
        other => panic!("{other:?}"),
    }
}

#[test]
fn captures_bind_in_their_block() {
    assert_eq!(run("1 2 ~a b~ b a a"), vec![number(2.0), number(1.0), number(1.0)]);
    assert_eq!(run("f: { ~x~ x x * }\n3 f"), vec![number(9.0)]);
    assert_eq!(fails("f: { x }\n1 ~x~ f"), "Unknown function name: x");
    assert_eq!(fails("{ (1) 5 ~x~ } x"), "Unknown function name: x");
}

#[test]
fn runtime_errors() {
    assert_eq!(fails("+"), "Stack empty");
    assert_eq!(fails("1 +"), "Stack empty");
    assert_eq!(fails("1 'a' +"), "Expected two numbers on top of stack");
    assert_eq!(fails("'a' ++"), "Expected number on top of stack");
    assert_eq!(fails("1 length"), "Expected string on top of stack");
    assert_eq!(fails("nothing"), "Unknown function name: nothing");
    assert_eq!(fails("1 'a' =="), "Mismatched types cannot be compared with ==");
    assert_eq!(fails("0 'broken' assert"), "Assertion failed: broken");
    assert_eq!(fails("1 eval"), "Expected function pointer on top of stack");
    assert_eq!(fails("'ab' to_char"), "to_ascii only works on strings with length: 1");
    assert_eq!(fails("-1 from_char"), "from_char only works with valid unicode codepoints");
    assert_eq!(fails("55296 from_char"), "from_char only works with valid unicode codepoints");
    assert_eq!(fails("'a' 0 1.5 substring"), "Invalid substring end index");
    assert_eq!(fails("'a' -1 1 substring"), "Invalid substring start index");
    assert_eq!(fails("{ () 1 }"), "Stack empty");
    assert_eq!(run("1 'fine' assert"), vec![]);
}

#[test]
fn backtrace_names_the_calls() {
    let ast = parse_source("f: g\ng: 1 +\nf").unwrap();
    let program = Program::new_from_module(&ast);
    let (message, trace) = execute(&program, &ast.body).unwrap_err();
    assert_eq!(message, "Stack empty");
    let names: Vec<&str> = trace.iter().map(|t| t.name.as_str()).collect();
    assert_eq!(names, vec!["f", "g", "+"]);
    assert_eq!(trace[1].range.start.character, 3);
}

#[test]
fn print_and_readline_go_through_the_host() {
    let ast = parse_source("[(readline) print] drop 1.5 print true print").unwrap();
    let program = Program::new_from_module(&ast);
    let mut host = Host { input: vec!["one".into(), "two".into()], output: vec![] };
    assert_eq!(run_with(&program, &ast.body, &mut host).unwrap(), vec![]);
    assert_eq!(host.output, vec!["one", "two", "1.5", "true"]);
}

#[test]
fn stack_grows_by_the_inferred_effect() {
    for code in ["420 42 +", "1 2 3 rot drop", "'a' 'b' join length", "1 { (dup) 2 3 (1) 4 5 }"] {
        let ast = parse_source(code).unwrap();
        let program = Program::new_from_module(&ast);
        let arities = stacklang::analyze::analyze_program(&program);
        let arity =
            stacklang::analyze::analyze_block_in_namespace(&arities, 0, &ast.body, &program)
                .unwrap();
        let (pops, pushes) = arity.size();
        assert_eq!(pops, 0, "{code}");
        assert_eq!(execute(&program, &ast.body).unwrap().len(), pushes, "{code}");
    }
}

#[test]
fn snapshots_carry_the_stack_over() {
    let first = parse_source("1 2").unwrap();
    let program = Program::new_from_module(&first);
    let mut machine = Interpreter::begin(&program);
    machine.start(&first.body);
    assert!(matches!(machine.run(100), Status::Finished));
    let snapshot = machine.finish().unwrap();
    let second = parse_source("swap").unwrap();
    let mut machine = Interpreter::from_snapshot(snapshot, &program);
    machine.start(&second.body);
    assert!(matches!(machine.run(1), Status::Running));
    assert!(matches!(machine.run(100), Status::Finished));
    assert_eq!(machine.finish().unwrap().stack, vec![number(2.0), number(1.0)]);
}

#[test]
fn an_answer_nobody_waited_for_fails_the_run() {
    let ast = parse_source("1 2 +").unwrap();
    let program = Program::new_from_module(&ast);
    let mut machine = Interpreter::begin(&program);
    machine.start(&ast.body);
    assert!(matches!(machine.resume(Reply::Done), Status::Failed));
    assert!(matches!(machine.step(), Status::Failed));
    assert_eq!(machine.finish().unwrap_err().0, "No request is waiting for an answer");
}

#[test]
fn a_step_before_the_answer_fails_the_run() {
    let ast = parse_source("1 2 +").unwrap();
    let program = Program::new_from_module(&ast);
    let mut machine = Interpreter::begin(&program);
    machine.start(&ast.body);
    assert!(matches!(machine.run(100), Status::Waiting(Request::Binary(Intrinsic::Plus, _, _))));
    assert!(matches!(machine.step(), Status::Failed));
    assert_eq!(machine.finish().unwrap_err().0, "The host has not answered the last request");
}

#[test]
fn an_answer_that_does_not_fit_fails_the_run() {
    let ast = parse_source("1 2 +").unwrap();
    let program = Program::new_from_module(&ast);
    let mut machine = Interpreter::begin(&program);
    machine.start(&ast.body);
    assert!(matches!(machine.run(100), Status::Waiting(_)));
    assert!(matches!(machine.resume(Reply::Text("3".into())), Status::Failed));
    let (message, trace) = machine.finish().unwrap_err();
    assert_eq!(message, "The answer does not fit the request");
    assert_eq!(trace.len(), 1);
    assert_eq!(trace[0].name, "+");
}

#[test]
fn a_failure_of_the_host_fails_the_run_with_its_message() {
    let ast = parse_source("'a' print").unwrap();
    let program = Program::new_from_module(&ast);
    let mut machine = Interpreter::begin(&program);
    machine.start(&ast.body);
    assert!(matches!(machine.run(100), Status::Waiting(Request::Print(_))));
    assert!(matches!(machine.resume(Reply::Failed("closed".into())), Status::Failed));
    assert_eq!(machine.finish().unwrap_err().0, "closed");
}

#[test]
fn a_finished_machine_stays_finished() {
    let ast = parse_source("1 { (0) 2 (1) 3 }").unwrap();
    let program = Program::new_from_module(&ast);
    let mut machine = Interpreter::begin(&program);
    machine.start(&ast.body);
    assert!(matches!(machine.run(3), Status::Running));
    assert!(matches!(machine.run(100), Status::Finished));
    assert!(matches!(machine.step(), Status::Finished));
    assert_eq!(machine.get_current_namespace(), 0);
    assert_eq!(machine.finish().unwrap().stack, vec![number(1.0), number(3.0)]);
}

#[test]
fn the_stack_grows_by_the_effect_through_calls_loops_and_branches() {
    for (code, before) in [
        ("f: { dup * }\n3 f f", 0usize),
        ("ifib: { 0 1 [ (rot dup) 1 - rot rot dup rot + ] drop drop }\n10 ifib", 0),
        ("1 ~a~ { (a) 'yes' 'no' (1) 'or' 'so' } join", 0),
        ("2 [ 1 - (dup) ] 'done' swap", 0),
    ] {
        let ast = parse_source(code).unwrap();
        let program = Program::new_from_module(&ast);
        let arities = stacklang::analyze::analyze_program(&program);
        let arity =
            stacklang::analyze::analyze_block_in_namespace(&arities, 0, &ast.body, &program)
                .unwrap();
        let (pops, pushes) = arity.size();
        let after = execute(&program, &ast.body).unwrap().len();
        assert_eq!(after + pops, before + pushes, "{code}");
    }
}

#[test]
fn a_take_that_fails_says_what_is_left() {
    let program = Program::new();
    let mut machine = Interpreter::begin(&program);
    assert!(machine.take().is_err());
    machine.push(number(1.0));
    assert_eq!(machine.take2().unwrap_err(), "Stack empty");
    assert!(machine.stack.is_empty());
    machine.push2(number(1.0), number(2.0));
    assert_eq!(machine.take3().unwrap_err(), "Stack empty");
    assert!(machine.stack.is_empty());
    machine.push(text("a"));
    assert_eq!(machine.take2_numbers().unwrap_err(), "Stack empty");
    assert!(machine.stack.is_empty());
    machine.push3(number(1.0), text("a"), number(2.0));
    assert_eq!(machine.take2_numbers().unwrap_err(), "Expected two numbers on top of stack");
    assert_eq!(machine.stack, vec![number(1.0)]);
    assert_eq!(machine.take_string().unwrap_err(), "Expected string on top of stack");
    assert!(machine.stack.is_empty());
    assert_eq!(machine.take_number().unwrap_err(), "Stack empty");
}
