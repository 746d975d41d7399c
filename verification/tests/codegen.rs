use stacklang::codegen::{
    c_codegen_module, codegen_module, js_codegen_module, number_literals, rs_codegen_module,
    CodegenContext, CodegenTarget, Dialect, Runtime,
};
use stacklang::intrinsics::{
    get_intrinsic, get_intrinsic_arity, get_intrinsic_codegen_name, get_intrinsics, hash_name,
};
use stacklang::lang::{Module, Number};
use stacklang::parse_error::ParseError;
use stacklang::parser::parse;
use stacklang::program::Program;
use stacklang::tokenizer::{scan, tokenize, words};

fn read_number(word: &str) -> Option<Number> {
    word.parse::<f64>().ok().map(|v| Number::from_bits(v.to_bits()))
}

fn parse_source(code: &str) -> Result<Module, ParseError> {
    let lexemes = scan(code).map_err(ParseError::Tokenization)?;
    let readings: Vec<Option<Number>> = words(&lexemes).iter().map(|w| read_number(w)).collect();
    parse(&tokenize(&lexemes, &readings))
}

fn texts(program: &Program, ast: &Module) -> Vec<String> {
    number_literals(program, &ast.body)
        .iter()
        .map(|n| format!("{}", f64::from_bits(n.to_bits())))
        .collect()
}

fn runtime_text(dialect: Dialect) -> String {
    let name = match dialect {
        Dialect::C => "// runtime of c\n",
        Dialect::Js => "// runtime of js",
        Dialect::Rs => "// runtime of rs\n",
    };
    format!("{}{name}", "/".repeat(500))
}

fn runtime_of(dialect: Dialect) -> Runtime {
    Runtime::new(runtime_text(dialect)).unwrap()
}

fn seam_of(dialect: Dialect) -> usize {
    match dialect {
        Dialect::Js => 1,
        _ => 0,
    }
}

fn generated(code: &str, dialect: Dialect) -> Result<String, String> {
    let ast = parse_source(code).unwrap();
    let program = Program::new_from_module(&ast);
    let numbers = texts(&program, &ast);
    codegen_module(&program, dialect, &runtime_of(dialect), 0, &ast.body, &numbers)
        .map(|text| text[runtime_text(dialect).len() + seam_of(dialect)..].to_string())
}

#[test]
fn target_indents_lines() {
    let mut target = CodegenTarget::new();
    target.write_line("a {");
    target.increase_indent();
    target.write_line("b {");
    target.increase_indent();
    target.write_line("c");
    target.decrease_indent();
    target.write_line("}");
    target.decrease_indent();
    target.decrease_indent();
    target.write_line("}");
    assert_eq!(target.into_string(), "a {\n  b {\n    c\n  }\n}\n");
    assert_eq!(CodegenTarget::default().into_string(), "");
}

#[test]
fn c_program() {
    let out = generated("f: 1.5 +\n\"a\\\"b\" f true @f", Dialect::C).unwrap();
    assert_eq!(
        out,
        "status_t user_fn_0_f(void);\n\
         status_t user_fn_0_f(void) {\n\
         \x20 checked(push_number_literal(1.5L));\n\
         \x20 checked(plus());\n\
         \x20 return OK;\n\
         }\n\
         status_t main_body(void) {\n\
         \x20 checked(push_string_literal(\"a\\\"b\", 3));\n\
         \x20 checked(user_fn_0_f());\n\
         \x20 checked(push_true_literal());\n\
         \x20 checked(push_fn_address(&user_fn_0_f));\n\
         \x20 return OK;\n\
         }\n\
         \nint main(void) {\n  checked(main_body());\n  checked(print_stack());\n}\n"
    );
}

#[test]
fn c_branch_and_loop() {
    let out = generated("{ (1) 2 (0) 3 } [(4) 5 (6)]", Dialect::C).unwrap();
    assert_eq!(
        out,
        "status_t main_body(void) {\n\
         \x20 checked(push_number_literal(1L));\n\
         \x20 int c;\n\
         \x20 checked(check_condition(&c));\n\
         \x20 if (c) {\n\
         \x20   checked(push_number_literal(2L));\n\
         \x20 } else {\n\
         \x20   checked(push_number_literal(0L));\n\
         \x20   int c;\n\
         \x20   checked(check_condition(&c));\n\
         \x20   if (c) {\n\
         \x20     checked(push_number_literal(3L));\n\
         \x20   } else {\n\
         \x20   }\n\
         \x20 }\n\
         \x20 while (1) {\n\
         \x20   checked(push_number_literal(4L));\n\
         \x20   {\n\
         \x20     int c;\n\
         \x20     checked(check_condition(&c));\n\
         \x20     if (!c) {\n\
         \x20       break;\n\
         \x20     }\n\
         \x20   }\n\
         \x20   checked(push_number_literal(5L));\n\
         \x20   checked(push_number_literal(6L));\n\
         \x20   {\n\
         \x20     int c;\n\
         \x20     checked(check_condition(&c));\n\
         \x20     if (!c) {\n\
         \x20       break;\n\
         \x20     }\n\
         \x20   }\n\
         \x20 }\n\
         \x20 return OK;\n\
         }\n\
         \nint main(void) {\n  checked(main_body());\n  checked(print_stack());\n}\n"
    );
}

#[test]
fn c_empty_function() {
    let out = generated("f:\n", Dialect::C).unwrap();
    assert!(out.contains("status_t user_fn_0_f(void) { return OK; }\n"));
    assert!(out.contains("status_t main_body(void) { return OK; }\n"));
}

#[test]
fn js_program() {
    let out = generated("f: 1 ==\n'x' f false @f { (1) 2 } [(3) 4]", Dialect::Js).unwrap();
    assert_eq!(
        out,
        "function user_fn_0_f() {\n\
         \x20 push(1)\n\
         \x20 equals()\n\
         }\n\
         function main_body() {\n\
         \x20 push(\"x\")\n\
         \x20 user_fn_0_f()\n\
         \x20 push(false)\n\
         \x20 push(user_fn_0_f)\n\
         \x20 push(1)\n\
         \x20 if (checkCondition()) {\n\
         \x20   push(2)\n\
         \x20 } else {\n\
         \x20 }\n\
         \x20 while (1) {\n\
         \x20   push(3)\n\
         \x20   if (!checkCondition()) {\n\
         \x20     break\n\
         \x20   }\n\
         \x20   push(4)\n\
         \x20 }\n\
         }\n\
         try {\n  main_body()\n  printStack()\n} catch (err) {\n   console.error(err)\n}\n"
    );
}

#[test]
fn rs_program() {
    let out = generated("f: 1 **\n'x' f true @f { (1) 2 } [3 (4)]", Dialect::Rs).unwrap();
    let number = |n: &str| format!("c.push({n}f{})?;", 64);
    let expected = format!(
        "fn user_fn_0_f(c: &mut Interpreter) -> InterpreterResult {{\n\
         \x20 {one}\n\
         \x20 pow_i(c)?;\n\
         \x20 Ok(())\n\
         }}\n\
         fn main_body(c: &mut Interpreter) -> InterpreterResult {{\n\
         \x20 c.push(\"x\")?;\n\
         \x20 user_fn_0_f(c)?;\n\
         \x20 c.push(true)?;\n\
         \x20 c.push(&(user_fn_0_f as Operation))?;\n\
         \x20 {one}\n\
         \x20 if c.check_condition()? {{\n\
         \x20   {two}\n\
         \x20 }} else {{\n\
         \x20 }}\n\
         \x20 loop {{\n\
         \x20   {three}\n\
         \x20   {four}\n\
         \x20   if !c.check_condition()? {{ break }}\n\
         \x20 }}\n\
         \x20 Ok(())\n\
         }}\n\
         \nfn main() -> InterpreterResult {{\n  let mut c = Interpreter::new();\n  main_body(&mut c)?;\n  c.print()?;\n  Ok(())\n}}\n",
        one = number("1"),
        two = number("2"),
        three = number("3"),
        four = number("4"),
    );
    assert_eq!(out, expected);
}

#[test]
fn entry_points_agree_with_the_general_one() {
    let ast = parse_source("f: 1 dup\n2 f").unwrap();
    let program = Program::new_from_module(&ast);
    let numbers = texts(&program, &ast);
    assert_eq!(
        c_codegen_module(&program, &runtime_of(Dialect::C), 0, &ast.body, &numbers),
        codegen_module(&program, Dialect::C, &runtime_of(Dialect::C), 0, &ast.body, &numbers)
    );
    assert_eq!(
        js_codegen_module(&program, &runtime_of(Dialect::Js), 0, &ast.body, &numbers),
        codegen_module(&program, Dialect::Js, &runtime_of(Dialect::Js), 0, &ast.body, &numbers)
    );
    assert_eq!(
        rs_codegen_module(&program, &runtime_of(Dialect::Rs), 0, &ast.body, &numbers),
        codegen_module(&program, Dialect::Rs, &runtime_of(Dialect::Rs), 0, &ast.body, &numbers)
    );
    assert_eq!(numbers, vec!["1", "2"]);
}

#[test]
fn unresolved_names_are_errors() {
    for dialect in [Dialect::C, Dialect::Js, Dialect::Rs] {
        assert_eq!(
            generated("1 nothing", dialect),
            Err("Unable to resolve name: nothing".to_string())
        );
        assert_eq!(
            generated("@nothing", dialect),
            Err("Unable to resolve name: nothing".to_string())
        );
        assert_eq!(
            generated("f: { [ (1) gone ] }\n2", dialect),
            Err("Unable to resolve name: gone".to_string())
        );
        assert_eq!(
            generated("1 ~a~", dialect),
            Err("Capture variables cannot be generated".to_string())
        );
    }
    let ast = parse_source("1 2").unwrap();
    let program = Program::new_from_module(&ast);
    assert_eq!(
        codegen_module(
            &program,
            Dialect::Js,
            &runtime_of(Dialect::Js),
            0,
            &ast.body,
            &vec!["1".to_string()]
        ),
        Err("Missing text for a number literal".to_string())
    );
}

#[test]
fn generated_code_mentions_the_intrinsics_it_uses() {
    let code = "1 2 + 3 - 4 * 5 / 6 % 7 ** 8 > 9 < 10 == ! 1 || 0 && swap dup over rot drop \
                ++ -- 'a' 'b' join length 'c' to_char from_char 'd' index 0 1 substring \
                print readline 'm' assert @f eval f: 1";
    for dialect in [Dialect::C, Dialect::Js, Dialect::Rs] {
        let out = generated(code, dialect).unwrap();
        for word in code.split(' ').filter(|w| get_intrinsic(w).is_some()) {
            let alias = get_intrinsic_codegen_name(word).unwrap();
            assert!(out.contains(&format!("{alias}(")), "{alias} in {dialect:?}");
        }
    }
}

#[test]
fn scoped_names() {
    assert_eq!(CodegenContext::scoped_name(12, "f"), "user_fn_12_f");
    let ast = parse_source("f: 1").unwrap();
    let program = Program::new_from_module(&ast);
    let numbers = vec![];
    let ctx = CodegenContext::new(&program, Dialect::C, &numbers);
    assert_eq!(ctx.get_scoped_name("g"), "user_fn_0_g");
    assert_eq!(ctx.resolve_name("f"), Ok("user_fn_0_f".to_string()));
    assert_eq!(ctx.resolve_name("+"), Ok("plus".to_string()));
    assert_eq!(ctx.resolve_name("h"), Err("Unable to resolve name: h".to_string()));
}

#[test]
fn intrinsics_symbols() {
    for data in get_intrinsics().iter() {
        let c_name = get_intrinsic_codegen_name(data.name).unwrap();
        for c in c_name.chars() {
            assert!(
                matches!(c, '0'..='9' | 'a'..='z' | '_'),
                "c_name: {} should not include special characters",
                c_name
            );
        }
    }
}

#[test]
fn intrinsic_table() {
    let all = get_intrinsics();
    assert_eq!(all.len(), 29);
    let mut slots = std::collections::HashSet::new();
    for data in &all {
        assert_eq!(get_intrinsic(data.name), Some(data.kind));
        assert_eq!(data.kind.name(), data.name);
        assert!(slots.insert(hash_name(data.name)), "hash collision for {}", data.name);
        if data.name == "eval" {
            assert!(get_intrinsic_arity(data.name).is_err());
        } else {
            assert_eq!(get_intrinsic_arity(data.name).unwrap().as_ref(), Some(&data.arity));
        }
    }
    assert_eq!(get_intrinsic("nothing"), None);
    assert_eq!(get_intrinsic_arity("nothing").unwrap(), None);
    assert_eq!(get_intrinsic_codegen_name("nothing"), None);
    assert_eq!(get_intrinsic_codegen_name("=="), Some("equals"));
    assert_eq!(get_intrinsic_codegen_name("index"), Some("string_index"));
    assert_eq!(get_intrinsic_codegen_name("swap"), Some("swap"));
    assert_eq!(hash_name(""), 0);
    assert_eq!(hash_name("+"), (43 * 300) % 256);
    assert_eq!(hash_name("ab"), (97 * 300 + 98) % 256);
    assert_eq!(get_intrinsic_arity("substring").unwrap().unwrap().stringify(), "s n n - s");
    assert_eq!(get_intrinsic_arity("rot").unwrap().unwrap().stringify(), "2 1 0 - 1 0 2");
    assert_eq!(get_intrinsic_arity("assert").unwrap().unwrap().stringify(), "u s -");
    assert_eq!(get_intrinsic_arity("readline").unwrap().unwrap().stringify(), "- s b");
}

#[test]
fn the_runtime_stands_in_front() {
    let ast = parse_source("true").unwrap();
    let program = Program::new_from_module(&ast);
    let none: Vec<String> = vec![];
    let text = "#".repeat(500);
    let runtime = Runtime::new(text.clone()).unwrap();
    assert_eq!(runtime.text(), text);
    let c = c_codegen_module(&program, &runtime, 0, &ast.body, &none).unwrap();
    assert!(c.starts_with(&format!("{text}status_t main_body(void)")), "{c}");
    let js = js_codegen_module(&program, &runtime, 0, &ast.body, &none).unwrap();
    assert!(js.starts_with(&format!("{text}\nfunction main_body() {{\n")), "{js}");
    let rs = rs_codegen_module(&program, &runtime, 0, &ast.body, &none).unwrap();
    assert!(
        rs.starts_with(&format!("{text}fn main_body(c: &mut Interpreter) -> InterpreterResult {{\n")),
        "{rs}"
    );
}

#[test]
fn a_runtime_has_500_characters_or_more() {
    assert!(Runtime::new("#".repeat(499)).is_none());
    assert!(Runtime::new(String::new()).is_none());
    assert!(Runtime::new("#".repeat(500)).is_some());
    assert!(Runtime::new("\u{e9}".repeat(500)).is_some());
    assert!(Runtime::new("\u{e9}".repeat(499)).is_none());
}

#[test]
fn generated_text_has_more_than_500_characters() {
    let ast = parse_source("true").unwrap();
    let program = Program::new_from_module(&ast);
    let none: Vec<String> = vec![];
    let runtime = Runtime::new("/".repeat(500)).unwrap();
    for dialect in [Dialect::C, Dialect::Js, Dialect::Rs] {
        let text = codegen_module(&program, dialect, &runtime, 0, &ast.body, &none).unwrap();
        assert!(text.chars().count() > 500, "{dialect:?}");
        assert!(text.starts_with(runtime.text()));
        assert!(text.len() < 1000);
    }
}
