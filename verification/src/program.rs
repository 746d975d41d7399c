//! A program: the namespaces that were loaded, and how a name is resolved among them.
use vstd::prelude::*;
use crate::lang::ast::{Function, FunctionModel, ImportNaming, Module, NamingModel};
use crate::text::chars_of;

verus! {

/// The number of a namespace: its position in the program.
pub type NamespaceId = usize;

/// An import of one namespace into another.
#[derive(Debug)]
pub struct NamespaceImport {
    pub id: NamespaceId,
    pub naming: ImportNaming,
}

/// The functions and imports of one source file.
#[derive(Debug, Default)]
pub struct Namespace {
    /// The canonical path of the file, if the namespace came from a file.
    pub path: Option<String>,
    pub imports: Vec<NamespaceImport>,
    pub functions: Vec<Function>,
}

/// The namespaces that were loaded.
#[derive(Debug)]
pub struct Program {
    pub namespaces: Vec<Namespace>,
}

/// The mathematical value of a [`Namespace`].
pub struct NamespaceModel {
    /// The path of the file the namespace came from, if it came from a file.
    pub path: Option<Seq<char>>,
    pub imports: Seq<(NamespaceId, NamingModel)>,
    pub functions: Seq<FunctionModel>,
}

impl View for Namespace {
    type V = NamespaceModel;

    open spec fn view(&self) -> NamespaceModel {
        NamespaceModel {
            path: match self.path {
                Some(p) => Some(p@),
                None => None,
            },
            imports: self.imports@.map_values(|i: NamespaceImport| (i.id, i.naming@)),
            functions: self.functions@.map_values(|f: Function| f@),
        }
    }
}

impl View for Program {
    type V = Seq<NamespaceModel>;

    open spec fn view(&self) -> Seq<NamespaceModel> {
        self.namespaces@.map_values(|n: Namespace| n@)
    }
}

/// The position of the first function named `name` at or after `from`.
pub open spec fn function_index(list: Seq<FunctionModel>, name: Seq<char>, from: int) -> Option<int>
    decreases list.len() - from,
{
    if from < 0 || from >= list.len() {
        None
    } else if list[from].name == name {
        Some(from)
    } else {
        function_index(list, name, from + 1)
    }
}

/// No two functions of the list have the same name.
pub open spec fn distinct_functions(list: Seq<FunctionModel>) -> bool {
    forall|i: int, j: int|
        0 <= i < j < list.len() ==> (#[trigger] list[i]).name != (#[trigger] list[j]).name
}

/// A program is well-formed when every import names a namespace of the program and no
/// namespace has two functions of one name.
pub open spec fn program_wf(p: Seq<NamespaceModel>) -> bool {
    forall|n: int|
        0 <= n < p.len() ==> distinct_functions((#[trigger] p[n]).functions) && forall|i: int|
            0 <= i < p[n].imports.len() ==> (#[trigger] p[n].imports[i]).0 < p.len()
}

/// One of the first `k` names of the list is `name`.
pub open spec fn listed(names: Seq<Seq<char>>, name: Seq<char>, k: nat) -> bool
    decreases k,
{
    k > 0 && (names[k - 1] == name || listed(names, name, (k - 1) as nat))
}

/// The name under which an import looks `name` up in the namespace it imports, if the
/// import makes `name` visible at all.
pub open spec fn imported_as(naming: NamingModel, name: Seq<char>) -> Option<Seq<char>> {
    match naming {
        NamingModel::Wildcard => Some(name),
        NamingModel::Named(names) => if listed(names, name, names.len()) {
            Some(name)
        } else {
            None
        },
        NamingModel::Scoped(prefix) => if name.len() > prefix.len() && name.subrange(
            0,
            prefix.len() as int,
        ) == prefix && name[prefix.len() as int] == '.' {
            Some(name.subrange(prefix.len() as int + 1, name.len() as int))
        } else {
            None
        },
    }
}

/// Where import `i` of a namespace finds `name`, if it finds it.
pub open spec fn through_import(
    p: Seq<NamespaceModel>,
    import: (NamespaceId, NamingModel),
    name: Seq<char>,
) -> Option<(NamespaceId, int)> {
    match imported_as(import.1, name) {
        Some(n) => match function_index(p[import.0 as int].functions, n, 0) {
            Some(i) => Some((import.0, i)),
            None => None,
        },
        None => None,
    }
}

/// Where the imports of `current` from position `k` on find `name`: the first that does wins.
pub open spec fn through_imports(
    p: Seq<NamespaceModel>,
    current: NamespaceId,
    name: Seq<char>,
    k: int,
) -> Option<(NamespaceId, int)>
    decreases p[current as int].imports.len() - k,
{
    if k < 0 || k >= p[current as int].imports.len() {
        None
    } else {
        match through_import(p, p[current as int].imports[k], name) {
            Some(r) => Some(r),
            None => through_imports(p, current, name, k + 1),
        }
    }
}

/// Where `name`, used in namespace `current`, is defined: in the namespace itself, or
/// else through the first import that finds it. The result is the namespace and the
/// position of the function in it.
pub open spec fn resolution(p: Seq<NamespaceModel>, current: NamespaceId, name: Seq<char>) -> Option<
    (NamespaceId, int),
> {
    match function_index(p[current as int].functions, name, 0) {
        Some(i) => Some((current, i)),
        None => through_imports(p, current, name, 0),
    }
}

/// A function found by name is in the list and has that name.
pub proof fn function_index_finds(list: Seq<FunctionModel>, name: Seq<char>, from: int)
    requires
        0 <= from,
    ensures
        match function_index(list, name, from) {
            Some(i) => from <= i < list.len() && list[i].name == name,
            None => forall|j: int| from <= j < list.len() ==> (#[trigger] list[j]).name != name,
        },
    decreases list.len() - from,
{
    if from < list.len() && list[from].name != name {
        function_index_finds(list, name, from + 1);
    }
}

/// Where the first function named `name` stands in the list.
pub fn find_function(list: &Vec<Function>, name: &str) -> (r: Option<usize>)
    ensures
        match r {
            Some(i) => function_index(list@.map_values(|f: Function| f@), name@, 0) == Some(
                i as int,
            ) && i < list.len() && list@[i as int].name@ == name@,
            None => function_index(list@.map_values(|f: Function| f@), name@, 0) is None,
        },
{
    let ghost model = list@.map_values(|f: Function| f@);
    let wanted = String::from_str(name);
    let mut i: usize = 0;
    while i < list.len()
        invariant
            i <= list.len(),
            wanted@ == name@,
            model == list@.map_values(|f: Function| f@),
            function_index(model, name@, 0) == function_index(model, name@, i as int),
        decreases list.len() - i,
    {
        assert(model[i as int] == list@[i as int]@);
        if list[i].name == wanted {
            return Some(i);
        }
        i += 1;
    }
    None
}

fn names_list(names: &Vec<String>, name: &str) -> (r: bool)
    ensures
        r == listed(names@.map_values(|n: String| n@), name@, names.len() as nat),
{
    let wanted = String::from_str(name);
    let mut i: usize = 0;
    let mut found = false;
    while i < names.len()
        invariant
            i <= names.len(),
            wanted@ == name@,
            found == listed(names@.map_values(|n: String| n@), name@, i as nat),
        decreases names.len() - i,
    {
        assert(names@.map_values(|n: String| n@)[i as int] == names@[i as int]@);
        if names[i] == wanted {
            found = true;
        }
        i += 1;
    }
    found
}

#[verifier::loop_isolation(false)]
fn visible_as(naming: &ImportNaming, name: &str) -> (r: Option<String>)
    ensures
        match imported_as(naming@, name@) {
            Some(n) => r is Some && r->0@ == n,
            None => r is None,
        },
{
    match naming {
        ImportNaming::Wildcard => Some(String::from_str(name)),
        ImportNaming::Named(names) => {
            if names_list(names, name) {
                Some(String::from_str(name))
            } else {
                None
            }
        },
        ImportNaming::Scoped(prefix) => {
            let n = chars_of(name);
            let p = chars_of(prefix.as_str());
            if n.len() <= p.len() {
                return None;
            }
            let mut i: usize = 0;
            while i < p.len()
                invariant
                    i <= p.len(),
                    p.len() < n.len(),
                    n@ == name@,
                    p@ == prefix@,
                    forall|k: int| 0 <= k < i ==> n@[k] == p@[k],
                decreases p.len() - i,
            {
                if n[i] != p[i] {
                    assert(n@.subrange(0, p@.len() as int)[i as int] != p@[i as int]);
                    return None;
                }
                i += 1;
            }
            assert(n@.subrange(0, p@.len() as int) =~= p@);
            if n[p.len()] != '.' {
                return None;
            }
            let mut rest: Vec<char> = Vec::new();
            let mut k: usize = p.len() + 1;
            while k < n.len()
                invariant
                    p.len() + 1 <= k <= n.len(),
                    rest@ == n@.subrange(p.len() as int + 1, k as int),
                decreases n.len() - k,
            {
                rest.push(n[k]);
                k += 1;
                assert(rest@ =~= n@.subrange(p.len() as int + 1, k as int));
            }
            Some(crate::text::string_of(&rest))
        },
    }
}

impl Program {
    /// A program without namespaces.
    pub fn new() -> (r: Program)
        ensures
            r@.len() == 0,
            program_wf(r@),
    {
        Program { namespaces: Vec::new() }
    }

    /// A program of one namespace that holds the functions of a module.
    pub fn new_from_module(ast: &Module) -> (r: Program)
        ensures
            r@.len() == 1,
            r@[0].path is None,
            r@[0].imports.len() == 0,
            r@[0].functions == merged_functions(Seq::empty(), ast@.functions, ast@.functions.len()),
            program_wf(r@),
    {
        let mut res = Program::new();
        let id = res.allocate_namespace();
        res.add_functions(id, &ast.functions);
        res
    }

    /// Adds an empty namespace and gives its number.
    pub fn allocate_namespace(&mut self) -> (id: NamespaceId)
        ensures
            id == old(self)@.len(),
            final(self)@ == old(self)@.push(
                NamespaceModel { path: None, imports: Seq::empty(), functions: Seq::empty() },
            ),
            program_wf(old(self)@) ==> program_wf(final(self)@),
    {
        let ghost before = self@;
        let n = Namespace { path: None, imports: Vec::new(), functions: Vec::new() };
        assert(n@.imports =~= Seq::empty());
        assert(n@.functions =~= Seq::empty());
        self.namespaces.push(n);
        assert(self@ =~= before.push(
            NamespaceModel { path: None, imports: Seq::empty(), functions: Seq::empty() },
        ));
        proof {
            if program_wf(before) {
                assert forall|n: int| 0 <= n < self@.len() implies distinct_functions(
                    (#[trigger] self@[n]).functions,
                ) && forall|i: int|
                    0 <= i < self@[n].imports.len() ==> (#[trigger] self@[n].imports[i]).0
                        < self@.len() by {
                    if n < before.len() {
                        assert(self@[n] == before[n]);
                    }
                }
            }
        }
        self.namespaces.len() - 1
    }

    /// The namespace with the given number.
    pub fn get_namespace(&self, namespace: NamespaceId) -> (r: &Namespace)
        requires
            namespace < self@.len(),
        ensures
            r@ == self@[namespace as int],
    {
        &self.namespaces[namespace]
    }

    /// Installs functions in a namespace: one that has the name of a function already
    /// there takes its place, any other is added at the end.
    pub fn add_functions(&mut self, namespace: NamespaceId, functions: &Vec<Function>)
        requires
            namespace < old(self)@.len(),
        ensures
            final(self)@ == old(self)@.update(
                namespace as int,
                NamespaceModel {
                    path: old(self)@[namespace as int].path,
                    imports: old(self)@[namespace as int].imports,
                    functions: merged_functions(
                        old(self)@[namespace as int].functions,
                        functions@.map_values(|f: Function| f@),
                        functions.len() as nat,
                    ),
                },
            ),
            program_wf(old(self)@) ==> program_wf(final(self)@),
    {
        let ghost before = self@;
        let ghost added = functions@.map_values(|f: Function| f@);
        let mut rest: Vec<Namespace> = Vec::new();
        core::mem::swap(&mut self.namespaces, &mut rest);
        let mut target = rest.remove(namespace);
        let ghost others = rest@;
        let ghost start = target@;
        let mut i: usize = 0;
        while i < functions.len()
            invariant
                i <= functions.len(),
                added == functions@.map_values(|f: Function| f@),
                target@.path == start.path,
                target@.imports == start.imports,
                target@.functions == merged_functions(start.functions, added, i as nat),
                distinct_functions(start.functions) ==> distinct_functions(target@.functions),
            decreases functions.len() - i,
        {
            assert(added[i as int] == functions@[i as int]@);
            let f = functions[i].duplicate();
            let ghost fm = f@;
            let ghost current = target@.functions;
            let at = find_function(&target.functions, functions[i].name.as_str());
            proof {
                function_index_finds(current, fm.name, 0);
            }
            match at {
                Some(k) => {
                    target.functions.set(k, f);
                    assert(target@.functions =~= current.update(k as int, fm));
                },
                None => {
                    target.functions.push(f);
                    assert(target@.functions =~= current.push(fm));
                },
            }
            i += 1;
        }
        let ghost done = target@;
        rest.insert(namespace, target);
        core::mem::swap(&mut self.namespaces, &mut rest);
        assert(self@ =~= before.update(namespace as int, done));
        proof {
            if program_wf(before) {
                assert(distinct_functions(before[namespace as int].functions));
                assert forall|n: int| 0 <= n < self@.len() implies distinct_functions(
                    (#[trigger] self@[n]).functions,
                ) && forall|i: int|
                    0 <= i < self@[n].imports.len() ==> (#[trigger] self@[n].imports[i]).0
                        < self@.len() by {
                    if n != namespace {
                        assert(self@[n] == before[n]);
                    } else {
                        assert forall|i: int| 0 <= i < self@[n].imports.len() implies (
                        #[trigger] self@[n].imports[i]).0 < self@.len() by {
                            assert(self@[n].imports[i] == before[n].imports[i]);
                        }
                    }
                }
            }
        }
    }

    /// Adds imports to a namespace, after those it has.
    pub fn add_imports(&mut self, namespace: NamespaceId, imports: Vec<NamespaceImport>)
        requires
            namespace < old(self)@.len(),
        ensures
            final(self)@ == old(self)@.update(
                namespace as int,
                NamespaceModel {
                    path: old(self)@[namespace as int].path,
                    imports: old(self)@[namespace as int].imports + imports@.map_values(
                        |i: NamespaceImport| (i.id, i.naming@),
                    ),
                    functions: old(self)@[namespace as int].functions,
                },
            ),
            program_wf(old(self)@) && (forall|i: int|
                0 <= i < imports.len() ==> (#[trigger] imports@[i]).id < old(self)@.len())
                ==> program_wf(final(self)@),
    {
        let ghost before = self@;
        let ghost given = imports@;
        let ghost added = imports@.map_values(|i: NamespaceImport| (i.id, i.naming@));
        let mut rest: Vec<Namespace> = Vec::new();
        core::mem::swap(&mut self.namespaces, &mut rest);
        let mut target = rest.remove(namespace);
        let ghost start = target@;
        let mut imports = imports;
        target.imports.append(&mut imports);
        assert(target@.imports =~= start.imports + added);
        let ghost done = target@;
        rest.insert(namespace, target);
        core::mem::swap(&mut self.namespaces, &mut rest);
        assert(self@ =~= before.update(namespace as int, done));
        proof {
            if program_wf(before) && (forall|i: int|
                0 <= i < given.len() ==> (#[trigger] given[i]).id < before.len()) {
                assert forall|n: int| 0 <= n < self@.len() implies distinct_functions(
                    (#[trigger] self@[n]).functions,
                ) && forall|i: int|
                    0 <= i < self@[n].imports.len() ==> (#[trigger] self@[n].imports[i]).0
                        < self@.len() by {
                    if n != namespace {
                        assert(self@[n] == before[n]);
                    } else {
                        assert(distinct_functions(before[n].functions));
                        assert forall|i: int| 0 <= i < self@[n].imports.len() implies (
                        #[trigger] self@[n].imports[i]).0 < self@.len() by {
                            if i < before[n].imports.len() {
                                assert(self@[n].imports[i] == before[n].imports[i]);
                            } else {
                                let k = i - before[n].imports.len();
                                assert(self@[n].imports[i] == added[k]);
                                assert(added[k].0 == given[k].id);
                            }
                        }
                    }
                }
            }
        }
    }

    /// Where `name`, used in namespace `current_id`, is defined: the namespace and the
    /// position of the function in it. The namespace itself is asked first, then its
    /// imports in the order they were declared.
    pub fn resolve_function(&self, current_id: NamespaceId, name: &str) -> (r: Option<
        (NamespaceId, usize),
    >)
        requires
            current_id < self@.len(),
            program_wf(self@),
        ensures
            match resolution(self@, current_id, name@) {
                Some((ns, i)) => r is Some && r->Some_0.0 == ns && r->Some_0.1 as int == i
                    && ns < self@.len() && 0 <= i < self@[ns as int].functions.len(),
                None => r is None,
            },
    {
        let current = &self.namespaces[current_id];
        assert(self@[current_id as int] == current@);
        proof {
            function_index_finds(current@.functions, name@, 0);
        }
        match find_function(&current.functions, name) {
            Some(i) => {
                return Some((current_id, i));
            },
            None => {},
        }
        let mut k: usize = 0;
        while k < current.imports.len()
            invariant
                k <= current.imports.len(),
                current_id < self@.len(),
                program_wf(self@),
                self@[current_id as int] == current@,
                resolution(self@, current_id, name@) == through_imports(
                    self@,
                    current_id,
                    name@,
                    k as int,
                ),
            decreases current.imports.len() - k,
        {
            let import = &current.imports[k];
            assert(current@.imports[k as int] == (import.id, import.naming@));
            assert(import.id < self@.len());
            match visible_as(&import.naming, name) {
                Some(n) => {
                    let other = &self.namespaces[import.id];
                    assert(self@[import.id as int] == other@);
                    proof {
                        function_index_finds(other@.functions, n@, 0);
                    }
                    match find_function(&other.functions, n.as_str()) {
                        Some(i) => {
                            return Some((import.id, i));
                        },
                        None => {},
                    }
                },
                None => {},
            }
            k += 1;
        }
        None
    }
}

/// The functions of a namespace after the first `k` of `added` were installed in turn.
pub open spec fn merged_functions(
    have: Seq<FunctionModel>,
    added: Seq<FunctionModel>,
    k: nat,
) -> Seq<FunctionModel>
    decreases k,
{
    if k == 0 {
        have
    } else {
        let before = merged_functions(have, added, (k - 1) as nat);
        match function_index(before, added[k - 1].name, 0) {
            Some(i) => before.update(i, added[k - 1]),
            None => before.push(added[k - 1]),
        }
    }
}

fn names_are_distinct(list: &Vec<Function>) -> (r: bool)
    ensures
        r == distinct_functions(list@.map_values(|f: Function| f@)),
{
    let ghost model = list@.map_values(|f: Function| f@);
    let mut j: usize = 0;
    while j < list.len()
        invariant
            j <= list.len(),
            model == list@.map_values(|f: Function| f@),
            forall|a: int, b: int|
                0 <= a < b < j ==> (#[trigger] model[a]).name != (#[trigger] model[b]).name,
        decreases list.len() - j,
    {
        let mut i: usize = 0;
        while i < j
            invariant
                i <= j,
                j < list.len(),
                model == list@.map_values(|f: Function| f@),
                forall|a: int| 0 <= a < i ==> (#[trigger] model[a]).name != model[j as int].name,
            decreases j - i,
        {
            assert(model[i as int] == list@[i as int]@);
            assert(model[j as int] == list@[j as int]@);
            if list[i].name == list[j].name {
                return false;
            }
            i += 1;
        }
        j += 1;
    }
    true
}

fn imports_are_known(list: &Vec<NamespaceImport>, count: usize) -> (r: bool)
    ensures
        r == forall|i: int| 0 <= i < list.len() ==> (#[trigger] list@[i]).id < count,
{
    let ghost model = list@.map_values(|i: NamespaceImport| (i.id, i.naming@));
    let mut i: usize = 0;
    while i < list.len()
        invariant
            i <= list.len(),
            forall|k: int| 0 <= k < i ==> (#[trigger] list@[k]).id < count,
        decreases list.len() - i,
    {
        if list[i].id >= count {
            return false;
        }
        i += 1;
    }
    true
}

impl Program {
    /// Whether the program is well-formed: every import names a namespace of the
    /// program, and no namespace has two functions of one name.
    pub fn is_well_formed(&self) -> (r: bool)
        ensures
            r == program_wf(self@),
    {
        let mut n: usize = 0;
        while n < self.namespaces.len()
            invariant
                n <= self.namespaces.len(),
                forall|k: int|
                    0 <= k < n ==> distinct_functions((#[trigger] self@[k]).functions) && forall|
                        i: int,
                    |
                        0 <= i < self@[k].imports.len() ==> (#[trigger] self@[k].imports[i]).0
                            < self@.len(),
            decreases self.namespaces.len() - n,
        {
            assert(self@[n as int] == self.namespaces@[n as int]@);
            if !names_are_distinct(&self.namespaces[n].functions) {
                return false;
            }
            let imports = &self.namespaces[n].imports;
            if !imports_are_known(imports, self.namespaces.len()) {
                proof {
                    let bad = choose|i: int|
                        0 <= i < imports.len() && (#[trigger] imports@[i]).id >= self@.len();
                    assert(self@[n as int].imports[bad] == (
                        imports@[bad].id,
                        imports@[bad].naming@,
                    ));
                }
                return false;
            }
            assert forall|i: int| 0 <= i < self@[n as int].imports.len() implies (
            #[trigger] self@[n as int].imports[i]).0 < self@.len() by {
                assert(self@[n as int].imports[i] == (imports@[i].id, imports@[i].naming@));
            }
            n += 1;
        }
        true
    }
}

/// The first of the first `k` added functions whose name a function of the namespace
/// or an earlier added function has already.
pub open spec fn first_clash(have: Seq<FunctionModel>, added: Seq<FunctionModel>, k: nat) -> Option<
    int,
>
    decreases k,
{
    if k == 0 {
        None
    } else {
        match first_clash(have, added, (k - 1) as nat) {
            Some(i) => Some(i),
            None => if function_index(have, added[k - 1].name, 0) is Some || function_index(
                added.take(k - 1),
                added[k - 1].name,
                0,
            ) is Some {
                Some(k - 1)
            } else {
                None
            },
        }
    }
}

impl Program {
    /// Installs functions in a namespace unless one of them has the name of a function
    /// that is there already or that comes earlier among them: then nothing is
    /// installed, and the name that clashes first is given back.
    pub fn add_new_functions(&mut self, namespace: NamespaceId, functions: &Vec<Function>) -> (r:
        Result<(), String>)
        requires
            namespace < old(self)@.len(),
        ensures
            match first_clash(
                old(self)@[namespace as int].functions,
                functions@.map_values(|f: Function| f@),
                functions.len() as nat,
            ) {
                Some(i) => r is Err && r->Err_0@ == functions@[i].name@ && final(self)@ == old(
                    self,
                )@,
                None => r is Ok && final(self)@ == old(self)@.update(
                    namespace as int,
                    NamespaceModel {
                        path: old(self)@[namespace as int].path,
                        imports: old(self)@[namespace as int].imports,
                        functions: merged_functions(
                            old(self)@[namespace as int].functions,
                            functions@.map_values(|f: Function| f@),
                            functions.len() as nat,
                        ),
                    },
                ),
            },
            program_wf(old(self)@) ==> program_wf(final(self)@),
    {
        let ghost have = self@[namespace as int].functions;
        let ghost added = functions@.map_values(|f: Function| f@);
        assert(self@[namespace as int] == self.namespaces@[namespace as int]@);
        let mut k: usize = 0;
        while k < functions.len()
            invariant
                k <= functions.len(),
                namespace < self@.len(),
                self@ == old(self)@,
                have == self.namespaces@[namespace as int]@.functions,
                have == old(self)@[namespace as int].functions,
                added == functions@.map_values(|f: Function| f@),
                first_clash(have, added, k as nat) is None,
            decreases functions.len() - k,
        {
            assert(added[k as int] == functions@[k as int]@);
            let name = functions[k].name.as_str();
            let known = find_function(&self.namespaces[namespace].functions, name).is_some();
            let repeated = named_before(functions, k, name);
            if known || repeated {
                proof {
                    assert(first_clash(have, added, (k + 1) as nat) == Some(k as int));
                    first_clash_stays(have, added, (k + 1) as nat, functions.len() as nat);
                }
                return Err(functions[k].name.clone());
            }
            k += 1;
        }
        self.add_functions(namespace, functions);
        Ok(())
    }
}

fn named_before(list: &Vec<Function>, k: usize, name: &str) -> (r: bool)
    requires
        k <= list.len(),
    ensures
        r == function_index(list@.map_values(|f: Function| f@).take(k as int), name@, 0) is Some,
{
    let ghost taken = list@.map_values(|f: Function| f@).take(k as int);
    let wanted = String::from_str(name);
    let mut j: usize = 0;
    while j < k
        invariant
            j <= k,
            k <= list.len(),
            wanted@ == name@,
            taken == list@.map_values(|f: Function| f@).take(k as int),
            function_index(taken, name@, 0) == function_index(taken, name@, j as int),
        decreases k - j,
    {
        assert(taken[j as int] == list@[j as int]@);
        if list[j].name == wanted {
            return true;
        }
        j += 1;
    }
    false
}

/// The first clash among some of the added functions is the first clash among more.
pub proof fn first_clash_stays(have: Seq<FunctionModel>, added: Seq<FunctionModel>, k: nat, n: nat)
    requires
        first_clash(have, added, k) is Some,
        k <= n,
    ensures
        first_clash(have, added, n) == first_clash(have, added, k),
    decreases n,
{
    if n > k {
        first_clash_stays(have, added, k, (n - 1) as nat);
    }
}

/// The names of the functions of a list, in the order of the list.
pub open spec fn own_names(functions: Seq<FunctionModel>) -> Seq<Seq<char>> {
    functions.map_values(|f: FunctionModel| f.name)
}

/// The names with `prefix` and a dot in front of each.
pub open spec fn prefixed(prefix: Seq<char>, names: Seq<Seq<char>>) -> Seq<Seq<char>> {
    names.map_values(|n: Seq<char>| prefix + seq!['.'] + n)
}

/// The names that an import makes visible: with a wildcard, those of the functions of
/// the namespace it imports; with a list of names, those names; with a prefix, the
/// names of the functions with the prefix and a dot in front.
pub open spec fn import_names(p: Seq<NamespaceModel>, import: (NamespaceId, NamingModel)) -> Seq<
    Seq<char>,
> {
    match import.1 {
        NamingModel::Wildcard => own_names(p[import.0 as int].functions),
        NamingModel::Named(names) => names,
        NamingModel::Scoped(prefix) => prefixed(prefix, own_names(p[import.0 as int].functions)),
    }
}

/// The names that the first `k` imports make visible.
pub open spec fn names_through(
    p: Seq<NamespaceModel>,
    imports: Seq<(NamespaceId, NamingModel)>,
    k: nat,
) -> Seq<Seq<char>>
    decreases k,
{
    if k == 0 || k > imports.len() {
        Seq::empty()
    } else {
        names_through(p, imports, (k - 1) as nat) + import_names(p, imports[k - 1])
    }
}

/// The names that can be used in a namespace: those of its own functions, then those
/// that its imports make visible, in the order of the imports.
pub open spec fn visible_names(p: Seq<NamespaceModel>, namespace: NamespaceId) -> Seq<Seq<char>> {
    own_names(p[namespace as int].functions) + names_through(
        p,
        p[namespace as int].imports,
        p[namespace as int].imports.len(),
    )
}

/// The texts of a list of strings.
pub open spec fn texts(names: Seq<String>) -> Seq<Seq<char>> {
    names.map_values(|n: String| n@)
}

fn push_own_names(out: &mut Vec<String>, functions: &Vec<Function>)
    ensures
        texts(final(out)@) == texts(old(out)@) + own_names(
            functions@.map_values(|f: Function| f@),
        ),
{
    let ghost model = functions@.map_values(|f: Function| f@);
    let mut i: usize = 0;
    assert(texts(out@) =~= texts(old(out)@) + own_names(model).take(0));
    while i < functions.len()
        invariant
            i <= functions.len(),
            model == functions@.map_values(|f: Function| f@),
            texts(out@) == texts(old(out)@) + own_names(model).take(i as int),
        decreases functions.len() - i,
    {
        let ghost before = texts(out@);
        assert(model[i as int] == functions@[i as int]@);
        out.push(functions[i].name.clone());
        assert(texts(out@) =~= before.push(functions@[i as int].name@));
        i += 1;
        assert(texts(out@) =~= texts(old(out)@) + own_names(model).take(i as int));
    }
    assert(own_names(model).take(functions.len() as int) =~= own_names(model));
}

fn push_prefixed_names(out: &mut Vec<String>, prefix: &str, functions: &Vec<Function>)
    ensures
        texts(final(out)@) == texts(old(out)@) + prefixed(
            prefix@,
            own_names(functions@.map_values(|f: Function| f@)),
        ),
{
    let ghost model = functions@.map_values(|f: Function| f@);
    let ghost all = prefixed(prefix@, own_names(model));
    let mut i: usize = 0;
    assert(texts(out@) =~= texts(old(out)@) + all.take(0));
    while i < functions.len()
        invariant
            i <= functions.len(),
            model == functions@.map_values(|f: Function| f@),
            all == prefixed(prefix@, own_names(model)),
            texts(out@) == texts(old(out)@) + all.take(i as int),
        decreases functions.len() - i,
    {
        let ghost before = texts(out@);
        assert(model[i as int] == functions@[i as int]@);
        let mut name = chars_of(prefix);
        name.push('.');
        crate::text::push_str(&mut name, functions[i].name.as_str());
        assert(name@ =~= all[i as int]);
        out.push(crate::text::string_of(&name));
        assert(texts(out@) =~= before.push(all[i as int]));
        i += 1;
        assert(texts(out@) =~= texts(old(out)@) + all.take(i as int));
    }
    assert(all.take(functions.len() as int) =~= all);
}

fn push_names(out: &mut Vec<String>, names: &Vec<String>)
    ensures
        texts(final(out)@) == texts(old(out)@) + texts(names@),
{
    let mut i: usize = 0;
    assert(texts(out@) =~= texts(old(out)@) + texts(names@).take(0));
    while i < names.len()
        invariant
            i <= names.len(),
            texts(out@) == texts(old(out)@) + texts(names@).take(i as int),
        decreases names.len() - i,
    {
        let ghost before = texts(out@);
        out.push(names[i].clone());
        assert(texts(out@) =~= before.push(names@[i as int]@));
        i += 1;
        assert(texts(out@) =~= texts(old(out)@) + texts(names@).take(i as int));
    }
    assert(texts(names@).take(names.len() as int) =~= texts(names@));
}

impl Program {
    /// The names that can be used in a namespace: those of its own functions, then
    /// those that its imports make visible.
    pub fn list_names(&self, namespace: NamespaceId) -> (r: Vec<String>)
        requires
            namespace < self@.len(),
            program_wf(self@),
        ensures
            texts(r@) == visible_names(self@, namespace),
    {
        let ghost p = self@;
        let ns = &self.namespaces[namespace];
        assert(p[namespace as int] == ns@);
        let mut out: Vec<String> = Vec::new();
        push_own_names(&mut out, &ns.functions);
        assert(texts(out@) =~= own_names(ns@.functions));
        let ghost own = texts(out@);
        let ghost imports = ns@.imports;
        let mut k: usize = 0;
        assert(texts(out@) =~= own + names_through(p, imports, 0));
        while k < ns.imports.len()
            invariant
                k <= ns.imports.len(),
                p == self@,
                program_wf(p),
                namespace < p.len(),
                p[namespace as int] == ns@,
                imports == ns@.imports,
                texts(out@) == own + names_through(p, imports, k as nat),
            decreases ns.imports.len() - k,
        {
            let ghost before = texts(out@);
            let import = &ns.imports[k];
            assert(imports[k as int] == (import.id, import.naming@));
            assert(import.id < self.namespaces.len());
            let from = &self.namespaces[import.id];
            assert(p[import.id as int] == from@);
            match &import.naming {
                ImportNaming::Wildcard => push_own_names(&mut out, &from.functions),
                ImportNaming::Named(names) => push_names(&mut out, names),
                ImportNaming::Scoped(prefix) => push_prefixed_names(
                    &mut out,
                    prefix.as_str(),
                    &from.functions,
                ),
            }
            assert(texts(out@) == before + import_names(p, imports[k as int]));
            k += 1;
            assert(texts(out@) =~= own + names_through(p, imports, k as nat));
        }
        out
    }
}

} // verus!
