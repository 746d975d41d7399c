//! The syntax tree of a module.
use vstd::prelude::*;
use crate::lang::number::Number;
use crate::lang::source_location::SourceRange;

verus! {

/// One term of a block.
#[derive(Debug, PartialEq)]
pub enum Term {
    /// Pushes a string.
    String(String),
    /// Pushes a number.
    Number(Number),
    /// Pushes a truth value.
    Bool(bool),
    /// Pushes a pointer to the named function.
    Address(String),
    /// Runs the named function, intrinsic or capture variable.
    Name(String, SourceRange),
    /// Pops the top of the stack and binds it to the named capture variable.
    Capture(String, SourceRange),
    /// Runs the body of the first arm whose condition holds.
    Branch(Branch),
    /// Runs its body until a condition fails.
    Loop(Loop),
}

/// The arms of a branch: each a condition and a body.
#[derive(Debug, PartialEq)]
pub struct Branch {
    pub arms: Vec<(Block, Block)>,
}

/// A loop with an optional condition before and after its body.
#[derive(Debug, PartialEq)]
pub struct Loop {
    pub pre_condition: Option<Block>,
    pub body: Block,
    pub post_condition: Option<Block>,
}

/// A sequence of terms, run left to right.
#[derive(Debug, PartialEq, Default)]
pub struct Block {
    pub terms: Vec<Term>,
}

/// A named block.
#[derive(Debug, PartialEq)]
pub struct Function {
    pub name: String,
    pub body: Block,
}

/// Under which names an import makes functions visible.
#[derive(Clone, Debug, PartialEq)]
pub enum ImportNaming {
    /// Every function, under its own name.
    Wildcard,
    /// The listed functions, under their own names.
    Named(Vec<String>),
    /// Every function, under the prefix, a dot and its own name.
    Scoped(String),
}

/// Where an imported file is found.
#[derive(Clone, Debug, PartialEq)]
pub enum ImportLocation {
    Relative(String),
}

/// One import of a module.
#[derive(Clone, Debug, PartialEq)]
pub struct Import {
    pub naming: ImportNaming,
    pub location: ImportLocation,
}

/// A parsed source file.
#[derive(Debug, PartialEq, Default)]
pub struct Module {
    pub imports: Vec<Import>,
    pub functions: Vec<Function>,
    pub body: Block,
}

impl Block {
    /// A block without terms.
    pub fn empty() -> (r: Block)
        ensures
            r.terms@.len() == 0,
    {
        Block { terms: Vec::new() }
    }
}

/// The mathematical value of a [`Term`].
pub enum TermModel {
    String(Seq<char>),
    Number(Number),
    Bool(bool),
    Address(Seq<char>),
    Name(Seq<char>, SourceRange),
    Capture(Seq<char>, SourceRange),
    Branch(Seq<(Seq<TermModel>, Seq<TermModel>)>),
    Loop(Option<Seq<TermModel>>, Seq<TermModel>, Option<Seq<TermModel>>),
}

/// The value of a term.
pub open spec fn term_model(t: Term) -> TermModel
    decreases t,
{
    match t {
        Term::String(s) => TermModel::String(s@),
        Term::Number(n) => TermModel::Number(n),
        Term::Bool(b) => TermModel::Bool(b),
        Term::Address(s) => TermModel::Address(s@),
        Term::Name(s, r) => TermModel::Name(s@, r),
        Term::Capture(s, r) => TermModel::Capture(s@, r),
        Term::Branch(b) => TermModel::Branch(arms_model(b.arms@)),
        Term::Loop(l) => TermModel::Loop(
            match l.pre_condition {
                Some(p) => Some(terms_model(p.terms@)),
                None => None,
            },
            terms_model(l.body.terms@),
            match l.post_condition {
                Some(p) => Some(terms_model(p.terms@)),
                None => None,
            },
        ),
    }
}

/// The values of a sequence of terms.
pub open spec fn terms_model(s: Seq<Term>) -> Seq<TermModel>
    decreases s,
{
    Seq::new(
        s.len(),
        |i: int|
            if 0 <= i < s.len() {
                term_model(s[i])
            } else {
                TermModel::Bool(false)
            },
    )
}

/// The values of the arms of a branch.
pub open spec fn arms_model(s: Seq<(Block, Block)>) -> Seq<(Seq<TermModel>, Seq<TermModel>)>
    decreases s,
{
    Seq::new(
        s.len(),
        |i: int|
            if 0 <= i < s.len() {
                (terms_model(s[i].0.terms@), terms_model(s[i].1.terms@))
            } else {
                (Seq::empty(), Seq::empty())
            },
    )
}

impl View for Block {
    type V = Seq<TermModel>;

    open spec fn view(&self) -> Seq<TermModel> {
        terms_model(self.terms@)
    }
}

/// The mathematical value of a [`Function`].
pub struct FunctionModel {
    pub name: Seq<char>,
    pub body: Seq<TermModel>,
}

impl View for Function {
    type V = FunctionModel;

    open spec fn view(&self) -> FunctionModel {
        FunctionModel { name: self.name@, body: self.body@ }
    }
}

/// The mathematical value of an [`ImportNaming`].
pub enum NamingModel {
    Wildcard,
    Named(Seq<Seq<char>>),
    Scoped(Seq<char>),
}

impl View for ImportNaming {
    type V = NamingModel;

    open spec fn view(&self) -> NamingModel {
        match *self {
            ImportNaming::Wildcard => NamingModel::Wildcard,
            ImportNaming::Named(names) => NamingModel::Named(names@.map_values(|n: String| n@)),
            ImportNaming::Scoped(prefix) => NamingModel::Scoped(prefix@),
        }
    }
}

/// The mathematical value of an [`Import`].
pub struct ImportModel {
    pub naming: NamingModel,
    pub location: Seq<char>,
}

impl View for Import {
    type V = ImportModel;

    open spec fn view(&self) -> ImportModel {
        ImportModel {
            naming: self.naming@,
            location: match self.location {
                ImportLocation::Relative(p) => p@,
            },
        }
    }
}

/// The mathematical value of a [`Module`].
pub struct ModuleModel {
    pub imports: Seq<ImportModel>,
    pub functions: Seq<FunctionModel>,
    pub body: Seq<TermModel>,
}

impl View for Module {
    type V = ModuleModel;

    open spec fn view(&self) -> ModuleModel {
        ModuleModel {
            imports: self.imports@.map_values(|i: Import| i@),
            functions: self.functions@.map_values(|f: Function| f@),
            body: self.body@,
        }
    }
}

impl Term {
    /// A copy.
    pub fn duplicate(&self) -> (r: Term)
        ensures
            term_model(r) == term_model(*self),
        decreases self,
    {
        match self {
            Term::String(s) => Term::String(s.clone()),
            Term::Number(n) => Term::Number(*n),
            Term::Bool(b) => Term::Bool(*b),
            Term::Address(s) => Term::Address(s.clone()),
            Term::Name(s, r) => Term::Name(s.clone(), *r),
            Term::Capture(s, r) => Term::Capture(s.clone(), *r),
            Term::Branch(b) => Term::Branch(b.duplicate()),
            Term::Loop(l) => Term::Loop(l.duplicate()),
        }
    }
}

impl Branch {
    /// A copy.
    pub fn duplicate(&self) -> (r: Branch)
        ensures
            arms_model(r.arms@) == arms_model(self.arms@),
        decreases self,
    {
        let mut arms: Vec<(Block, Block)> = Vec::new();
        let mut i: usize = 0;
        while i < self.arms.len()
            invariant
                i <= self.arms.len(),
                arms.len() == i,
                forall|k: int|
                    0 <= k < i ==> (#[trigger] arms@[k]).0@ == self.arms@[k].0@ && arms@[k].1@
                        == self.arms@[k].1@,
            decreases self.arms.len() - i,
        {
            let c = self.arms[i].0.duplicate();
            let b = self.arms[i].1.duplicate();
            arms.push((c, b));
            i += 1;
        }
        assert(arms_model(arms@) =~= arms_model(self.arms@));
        Branch { arms }
    }
}

impl Loop {
    /// A copy.
    pub fn duplicate(&self) -> (r: Loop)
        ensures
            term_model(Term::Loop(r)) == term_model(Term::Loop(*self)),
        decreases self,
    {
        let pre_condition = match &self.pre_condition {
            Some(b) => Some(b.duplicate()),
            None => None,
        };
        let body = self.body.duplicate();
        let post_condition = match &self.post_condition {
            Some(b) => Some(b.duplicate()),
            None => None,
        };
        Loop { pre_condition, body, post_condition }
    }
}

impl Block {
    /// A copy.
    pub fn duplicate(&self) -> (r: Block)
        ensures
            r@ == self@,
        decreases self,
    {
        let mut terms: Vec<Term> = Vec::new();
        let mut i: usize = 0;
        while i < self.terms.len()
            invariant
                i <= self.terms.len(),
                terms.len() == i,
                forall|k: int|
                    0 <= k < i ==> term_model(#[trigger] terms@[k]) == term_model(self.terms@[k]),
            decreases self.terms.len() - i,
        {
            let t = self.terms[i].duplicate();
            terms.push(t);
            i += 1;
        }
        assert(terms_model(terms@) =~= terms_model(self.terms@));
        Block { terms }
    }
}

impl Function {
    /// A copy.
    pub fn duplicate(&self) -> (r: Function)
        ensures
            r@ == self@,
    {
        Function { name: self.name.clone(), body: self.body.duplicate() }
    }
}

impl ImportNaming {
    /// A copy.
    pub fn duplicate(&self) -> (r: ImportNaming)
        ensures
            r@ == self@,
    {
        match self {
            ImportNaming::Wildcard => ImportNaming::Wildcard,
            ImportNaming::Scoped(p) => ImportNaming::Scoped(p.clone()),
            ImportNaming::Named(names) => {
                let mut out: Vec<String> = Vec::new();
                let mut i: usize = 0;
                while i < names.len()
                    invariant
                        i <= names.len(),
                        out.len() == i,
                        forall|k: int| 0 <= k < i ==> (#[trigger] out@[k])@ == names@[k]@,
                    decreases names.len() - i,
                {
                    out.push(names[i].clone());
                    i += 1;
                }
                assert(out@.map_values(|n: String| n@) =~= names@.map_values(|n: String| n@));
                ImportNaming::Named(out)
            },
        }
    }
}

/// Whether a path is one an import may name: it begins with `./` or with `../`.
pub open spec fn is_relative(path: Seq<char>) -> bool {
    (path.len() >= 2 && path[0] == '.' && path[1] == '/') || (path.len() >= 3 && path[0] == '.'
        && path[1] == '.' && path[2] == '/')
}

impl ImportLocation {
    /// Whether the path is one an import may name.
    pub fn is_relative(&self) -> (r: bool)
        ensures
            r == match *self {
                ImportLocation::Relative(path) => is_relative(path@),
            },
    {
        match self {
            ImportLocation::Relative(path) => {
                let chars = crate::text::chars_of(path.as_str());
                (chars.len() >= 2 && chars[0] == '.' && chars[1] == '/') || (chars.len() >= 3
                    && chars[0] == '.' && chars[1] == '.' && chars[2] == '/')
            },
        }
    }
}

} // verus!
