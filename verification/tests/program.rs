use stacklang::lang::{Block, Function, ImportLocation, ImportNaming, Number, Term};
use stacklang::program::{NamespaceImport, Program};

fn function(name: &str, value: f64) -> Function {
    Function {
        name: name.into(),
        body: Block { terms: vec![Term::Number(Number::from_bits(value.to_bits()))] },
    }
}

fn three_files() -> Program {
    let mut program = Program::new();
    let main = program.allocate_namespace();
    let a = program.allocate_namespace();
    let b = program.allocate_namespace();
    let c = program.allocate_namespace();
    program.add_functions(main, &vec![function("local", 0.0)]);
    program.add_functions(a, &vec![function("one", 1.0), function("shared", 1.0)]);
    program.add_functions(b, &vec![function("two", 2.0), function("shared", 2.0)]);
    program.add_functions(c, &vec![function("three", 3.0), function("local", 3.0)]);
    program.add_imports(
        main,
        vec![
            NamespaceImport { id: a, naming: ImportNaming::Named(vec!["one".into()]) },
            NamespaceImport { id: b, naming: ImportNaming::Wildcard },
            NamespaceImport { id: c, naming: ImportNaming::Scoped("c".into()) },
        ],
    );
    program
}

#[test]
fn resolution_order() {
    let program = three_files();
    assert_eq!(program.resolve_function(0, "local"), Some((0, 0)));
    assert_eq!(program.resolve_function(0, "one"), Some((1, 0)));
    assert_eq!(program.resolve_function(0, "shared"), Some((2, 1)));
    assert_eq!(program.resolve_function(0, "two"), Some((2, 0)));
    assert_eq!(program.resolve_function(0, "c.three"), Some((3, 0)));
    assert_eq!(program.resolve_function(0, "c.local"), Some((3, 1)));
    assert_eq!(program.resolve_function(0, "three"), None);
    assert_eq!(program.resolve_function(0, "c."), None);
    assert_eq!(program.resolve_function(0, "c"), None);
    assert_eq!(program.resolve_function(0, "cx.three"), None);
    assert_eq!(program.resolve_function(0, "b.two"), None);
    assert_eq!(program.resolve_function(1, "two"), None);
    assert_eq!(program.resolve_function(3, "local"), Some((3, 1)));
}

#[test]
fn later_functions_replace_earlier_ones() {
    let mut program = Program::new();
    let id = program.allocate_namespace();
    assert_eq!(id, 0);
    program.add_functions(id, &vec![function("f", 1.0), function("g", 2.0), function("f", 3.0)]);
    let namespace = program.get_namespace(id);
    assert_eq!(namespace.functions.len(), 2);
    assert_eq!(namespace.functions[0], function("f", 3.0));
    assert_eq!(namespace.functions[1], function("g", 2.0));
    program.add_functions(id, &vec![function("g", 4.0)]);
    assert_eq!(program.get_namespace(id).functions[1], function("g", 4.0));
    assert_eq!(program.allocate_namespace(), 1);
}

#[test]
fn clashing_functions_are_refused() {
    let mut program = Program::new();
    let id = program.allocate_namespace();
    assert_eq!(program.add_new_functions(id, &vec![function("f", 1.0), function("g", 2.0)]), Ok(()));
    assert_eq!(
        program.add_new_functions(id, &vec![function("h", 3.0), function("g", 4.0)]),
        Err("g".to_string())
    );
    assert_eq!(program.get_namespace(id).functions.len(), 2);
    assert_eq!(
        program.add_new_functions(id, &vec![function("h", 3.0), function("h", 4.0)]),
        Err("h".to_string())
    );
    assert_eq!(program.get_namespace(id).functions.len(), 2);
    assert_eq!(program.add_new_functions(id, &vec![function("h", 5.0)]), Ok(()));
    assert_eq!(program.get_namespace(id).functions[2], function("h", 5.0));
    assert!(program.is_well_formed());
}

#[test]
fn well_formedness_is_checked() {
    let mut program = three_files();
    assert!(program.is_well_formed());
    program.add_imports(1, vec![NamespaceImport { id: 9, naming: ImportNaming::Wildcard }]);
    assert!(!program.is_well_formed());
    let mut program = Program::new();
    let id = program.allocate_namespace();
    program.namespaces[id].functions.push(function("f", 1.0));
    program.namespaces[id].functions.push(function("f", 2.0));
    assert!(!program.is_well_formed());
}

#[test]
fn visible_names_are_listed_in_order() {
    let program = three_files();
    assert_eq!(
        program.list_names(0),
        vec!["local", "one", "two", "shared", "c.three", "c.local"]
    );
    assert_eq!(program.list_names(1), vec!["one", "shared"]);
    let mut empty = Program::new();
    let id = empty.allocate_namespace();
    assert!(empty.list_names(id).is_empty());
}

#[test]
fn imports_name_relative_paths() {
    for (path, expected) in [
        ("./a.sl", true),
        ("../a.sl", true),
        ("./", true),
        ("../", true),
        ("a.sl", false),
        ("/a.sl", false),
        (".a/", false),
        ("..", false),
        (".", false),
        ("", false),
        ("...//", false),
    ] {
        assert_eq!(ImportLocation::Relative(path.into()).is_relative(), expected, "{path}");
    }
}

#[test]
fn the_path_of_a_namespace_stays() {
    let mut program = Program::new();
    let id = program.allocate_namespace();
    assert_eq!(program.get_namespace(id).path, None);
    program.namespaces[id].path = Some("/lib/a.sl".to_string());
    let other = program.allocate_namespace();
    program.add_functions(id, &vec![function("one", 1.0)]);
    program.add_imports(id, vec![NamespaceImport { id: other, naming: ImportNaming::Wildcard }]);
    assert!(program.add_new_functions(id, &vec![function("two", 2.0)]).is_ok());
    assert!(program.add_new_functions(id, &vec![function("two", 2.0)]).is_err());
    assert_eq!(program.get_namespace(id).path.as_deref(), Some("/lib/a.sl"));
    assert_eq!(program.get_namespace(other).path, None);
}
