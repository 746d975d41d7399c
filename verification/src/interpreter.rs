//! The interpreter: a machine that runs a block one step at a time and hands to its host
//! whatever needs arithmetic on numbers or the outside world.
use vstd::prelude::*;
use crate::intrinsics::{get_intrinsic, intrinsic_named, Intrinsic};
use crate::lang::ast::{Block, Branch, Loop, Term};
use crate::lang::number::Number;
use crate::lang::source_location::SourceRange;
use crate::lang::string::api::{occurs_at, StringApi};
use crate::lang::string::char_string::CharString;
use crate::lang::value::{OwnedValue, Value, ValueModel};
use crate::program::{program_wf, resolution, NamespaceId, Program};
use crate::stack::{
    apply, is_stack_only, push, push2, stack_effect, stack_empty, take, take2, take2_numbers,
    take_number, take_string, values,
};
use crate::text::{chars_of, push_all, push_str, string_of};
use crate::tokenizer::is_scalar;

verus! {

/// What a failed run reports.
pub type InterpreterError = String;

/// One entry of the trail of calls that led to a failure.
#[derive(Debug)]
pub struct BacktraceItem {
    /// The namespace the name was used in.
    pub namespace: NamespaceId,
    pub name: String,
    pub range: SourceRange,
}

/// What is left of a run: its stack, lowest value first.
#[derive(Debug, Default)]
pub struct InterpreterSnapshot {
    pub stack: Vec<OwnedValue>,
}

/// What the machine asks of its host.
#[derive(Debug)]
pub enum Request {
    /// The outcome of an operation on two numbers, the lower one first: a number for
    /// `+ - * / % **`, a truth value for `> < ==`.
    Binary(Intrinsic, Number, Number),
    /// The outcome of `++` or `--` on a number.
    Unary(Intrinsic, Number),
    /// The index a number stands for, if it is a whole number that is not negative and
    /// that a number holds exactly.
    ToIndex(Number),
    /// The number that stands for an index, if a number holds it exactly.
    FromIndex(usize),
    /// The text a number is shown as.
    Show(Number),
    /// Print the text and a line end.
    Print(String),
    /// Read a line, without its line end.
    ReadLine,
}

/// A request as contracts see it.
pub enum RequestModel {
    Binary(Intrinsic, Number, Number),
    Unary(Intrinsic, Number),
    ToIndex(Number),
    FromIndex(usize),
    Show(Number),
    Print(Seq<char>),
    ReadLine,
}

impl View for Request {
    type V = RequestModel;

    open spec fn view(&self) -> RequestModel {
        match *self {
            Request::Binary(i, a, b) => RequestModel::Binary(i, a, b),
            Request::Unary(i, a) => RequestModel::Unary(i, a),
            Request::ToIndex(n) => RequestModel::ToIndex(n),
            Request::FromIndex(i) => RequestModel::FromIndex(i),
            Request::Show(n) => RequestModel::Show(n),
            Request::Print(s) => RequestModel::Print(s@),
            Request::ReadLine => RequestModel::ReadLine,
        }
    }
}

/// What the host answers.
#[derive(Debug)]
pub enum Reply {
    Number(Number),
    Bool(bool),
    Index(Option<usize>),
    Text(String),
    /// A line that was read, or nothing at the end of input.
    Line(Option<String>),
    /// The request was carried out and has no result.
    Done,
    /// The request could not be carried out.
    Failed(String),
}

/// An answer as contracts see it.
pub enum ReplyModel {
    Number(Number),
    Bool(bool),
    Index(Option<usize>),
    Text(Seq<char>),
    Line(Option<Seq<char>>),
    Done,
    Failed(Seq<char>),
}

impl View for Reply {
    type V = ReplyModel;

    open spec fn view(&self) -> ReplyModel {
        match *self {
            Reply::Number(n) => ReplyModel::Number(n),
            Reply::Bool(b) => ReplyModel::Bool(b),
            Reply::Index(i) => ReplyModel::Index(i),
            Reply::Text(s) => ReplyModel::Text(s@),
            Reply::Line(Some(s)) => ReplyModel::Line(Some(s@)),
            Reply::Line(None) => ReplyModel::Line(None),
            Reply::Done => ReplyModel::Done,
            Reply::Failed(s) => ReplyModel::Failed(s@),
        }
    }
}

/// Where a run stands after a step.
#[derive(Debug)]
pub enum Status {
    /// There is more to run.
    Running,
    /// The block ran to its end.
    Finished,
    /// The run failed; [`Interpreter::finish`] tells how.
    Failed,
    /// The run goes on once the host has answered the request.
    Waiting(Request),
}

/// A status as contracts see it.
pub enum StatusModel {
    Running,
    Finished,
    Failed,
    Waiting(RequestModel),
}

impl View for Status {
    type V = StatusModel;

    open spec fn view(&self) -> StatusModel {
        match *self {
            Status::Running => StatusModel::Running,
            Status::Finished => StatusModel::Finished,
            Status::Failed => StatusModel::Failed,
            Status::Waiting(r) => StatusModel::Waiting(r@),
        }
    }
}

/// What is to happen when a block has run to its end.
pub enum After<'a> {
    /// Nothing more.
    Nothing,
    /// The block was the body of a called function.
    Return,
    /// The block was the condition of the given arm of a branch.
    BranchCondition(&'a Branch, usize),
    /// The block was the condition in front of a loop's body.
    LoopPre(&'a Loop),
    /// The block was the body of a loop.
    LoopBody(&'a Loop),
    /// The block was the condition behind a loop's body.
    LoopPost(&'a Loop),
}

/// A block that is being run.
pub struct Frame<'a> {
    pub block: &'a Block,
    /// The position of the term that runs next.
    pub next: usize,
    pub after: After<'a>,
    /// How many capture variables were bound when the block was entered.
    pub scope: usize,
}

/// What a built-in operation is in the middle of, while the host works on a request.
pub enum Pending {
    Nothing,
    /// The answer is the value to push.
    Value,
    /// `substring` waits for the index of its end.
    SubstringEnd,
    /// `substring` waits for the index of its start and has that of its end.
    SubstringStart(usize),
    /// `from_char` waits for the code of the character.
    FromChar,
    /// The answer is the number to push, or nothing; the text is the message to fail with.
    Converted(String),
    /// `join` waits for the text of its first operand and holds the second.
    JoinFirst(Value),
    /// `join` waits for the text of its second operand and holds that of the first.
    JoinSecond(CharString),
    /// `print` waits for the text of the number it prints.
    PrintText,
    /// `print` waits for the host to have printed.
    Printed,
    /// `readline` waits for the line.
    Line,
}

/// What an operation is in the middle of, as contracts see it.
pub enum PendingModel {
    Nothing,
    Value,
    SubstringEnd,
    SubstringStart(usize),
    FromChar,
    Converted(Seq<char>),
    JoinFirst(ValueModel),
    JoinSecond(Seq<char>),
    PrintText,
    Printed,
    Line,
}

impl View for Pending {
    type V = PendingModel;

    open spec fn view(&self) -> PendingModel {
        match *self {
            Pending::Nothing => PendingModel::Nothing,
            Pending::Value => PendingModel::Value,
            Pending::SubstringEnd => PendingModel::SubstringEnd,
            Pending::SubstringStart(end) => PendingModel::SubstringStart(end),
            Pending::FromChar => PendingModel::FromChar,
            Pending::Converted(m) => PendingModel::Converted(m@),
            Pending::JoinFirst(v) => PendingModel::JoinFirst(v@),
            Pending::JoinSecond(s) => PendingModel::JoinSecond(s@),
            Pending::PrintText => PendingModel::PrintText,
            Pending::Printed => PendingModel::Printed,
            Pending::Line => PendingModel::Line,
        }
    }
}

/// The machine.
pub struct Interpreter<'a> {
    pub stack: Vec<Value>,
    pub namespace_stack: Vec<NamespaceId>,
    pub backtrace: Vec<BacktraceItem>,
    pub program: &'a Program,
    pub frames: Vec<Frame<'a>>,
    /// The capture variables that are bound, innermost last.
    pub bindings: Vec<(String, Value)>,
    /// For each function that is running, how many variables were bound when it was called.
    pub bases: Vec<usize>,
    pub pending: Pending,
    pub failure: Option<InterpreterError>,
}

/// The machine as contracts see it.
pub struct Machine<'a> {
    /// The operand stack, lowest value first.
    pub stack: Seq<ValueModel>,
    /// The namespaces of the functions that are running, innermost last.
    pub namespaces: Seq<NamespaceId>,
    /// The names that are being run, innermost last.
    pub trail: Seq<BacktraceItem>,
    /// The blocks that are being run, innermost last.
    pub frames: Seq<Frame<'a>>,
    /// The capture variables that are bound, innermost last.
    pub bindings: Seq<(Seq<char>, ValueModel)>,
    /// For each function that is running, how many variables were bound when it was called.
    pub bases: Seq<usize>,
    pub pending: PendingModel,
    /// The message of the failure, once the run has failed.
    pub failure: Option<Seq<char>>,
}

/// The names and values of a list of bound variables.
pub open spec fn bound(bindings: Seq<(String, Value)>) -> Seq<(Seq<char>, ValueModel)> {
    bindings.map_values(|b: (String, Value)| (b.0@, b.1@))
}

impl<'a> View for Interpreter<'a> {
    type V = Machine<'a>;

    open spec fn view(&self) -> Machine<'a> {
        Machine {
            stack: values(self.stack@),
            namespaces: self.namespace_stack@,
            trail: self.backtrace@,
            frames: self.frames@,
            bindings: bound(self.bindings@),
            bases: self.bases@,
            pending: self.pending@,
            failure: match self.failure {
                Some(m) => Some(m@),
                None => None,
            },
        }
    }
}

/// The number that `index` gives when the text is not found: minus one.
pub fn minus_one() -> (r: Number)
    ensures
        r.bits == 0xBFF0_0000_0000_0000u64,
{
    Number { bits: 0xBFF0_0000_0000_0000u64 }
}

/// The text a value is shown as, except that a number is shown as `number_text`.
pub open spec fn shown(v: ValueModel, number_text: Seq<char>) -> Seq<char> {
    match v {
        ValueModel::String(s) => s,
        ValueModel::Number(_) => number_text,
        ValueModel::Bool(b) => if b {
            "true"@
        } else {
            "false"@
        },
        ValueModel::Address(ns, name) => "Fn["@ + crate::text::decimal(ns as nat) + ", "@ + name
            + "]"@,
    }
}

/// The text a value is shown as; for a number, the text the host gave for it.
pub fn show(v: &Value, number_text: &Vec<char>) -> (r: Vec<char>)
    ensures
        r@ == shown(v@, number_text@),
{
    match v {
        Value::String(s) => chars_of(s.text().as_str()),
        Value::Number(_) => {
            let mut out: Vec<char> = Vec::new();
            push_all(&mut out, number_text);
            assert(out@ =~= number_text@);
            out
        },
        Value::Bool(b) => {
            if *b {
                chars_of("true")
            } else {
                chars_of("false")
            }
        },
        Value::Address(ns, name) => {
            let mut out: Vec<char> = Vec::new();
            push_str(&mut out, "Fn[");
            let digits = crate::text::decimal_chars(*ns);
            push_all(&mut out, &digits);
            push_str(&mut out, ", ");
            push_str(&mut out, name.as_str());
            push_str(&mut out, "]");
            assert(out@ =~= shown(v@, number_text@));
            out
        },
    }
}

/// The text a value is listed as: a string in double quotes with its special
/// characters escaped, any other value as it is shown.
pub open spec fn listed(v: ValueModel, number_text: Seq<char>) -> Seq<char> {
    match v {
        ValueModel::String(s) => crate::text::debug_quoted(s),
        other => shown(other, number_text),
    }
}

/// The text a value is listed as; for a number, the text the host gave for it.
pub fn list_value(v: &Value, number_text: &Vec<char>) -> (r: Vec<char>)
    ensures
        r@ == listed(v@, number_text@),
{
    match v {
        Value::String(s) => chars_of(crate::text::quote(s.text().as_str()).as_str()),
        other => show(other, number_text),
    }
}

/// A list without its last item; an empty list stays empty.
pub open spec fn without_last<T>(s: Seq<T>) -> Seq<T> {
    if s.len() > 0 {
        s.drop_last()
    } else {
        s
    }
}

/// The first `n` items of a list; the whole list when it has fewer.
pub open spec fn cut<T>(s: Seq<T>, n: usize) -> Seq<T> {
    if n <= s.len() {
        s.take(n as int)
    } else {
        s
    }
}

/// The number on top of a stack, or the message the run fails with.
pub open spec fn top_number(stack: Seq<ValueModel>) -> Result<Number, Seq<char>> {
    if stack.len() == 0 {
        Err(stack_empty())
    } else {
        match stack.last() {
            ValueModel::Number(n) => Ok(n),
            _ => Err("Expected number on top of stack"@),
        }
    }
}

/// The string on top of a stack, or the message the run fails with.
pub open spec fn top_string(stack: Seq<ValueModel>) -> Result<Seq<char>, Seq<char>> {
    if stack.len() == 0 {
        Err(stack_empty())
    } else {
        match stack.last() {
            ValueModel::String(s) => Ok(s),
            _ => Err("Expected string on top of stack"@),
        }
    }
}

/// `i` is the first offset at which `needle` stands in `hay`.
pub open spec fn is_first_place(hay: Seq<char>, needle: Seq<char>, i: int) -> bool {
    occurs_at(hay, needle, i) && forall|j: int| 0 <= j < i ==> !occurs_at(hay, needle, j)
}

/// The first offset at which `needle` stands in `hay`, if it stands in it at all.
pub open spec fn first_place(hay: Seq<char>, needle: Seq<char>) -> Option<int> {
    if exists|i: int| is_first_place(hay, needle, i) {
        Some(choose|i: int| is_first_place(hay, needle, i))
    } else {
        None
    }
}

/// The value bound to `name` among the first `k` bindings that stand at `base` or
/// above, the innermost binding first.
pub open spec fn bound_value(
    bindings: Seq<(Seq<char>, ValueModel)>,
    base: int,
    name: Seq<char>,
    k: int,
) -> Option<ValueModel>
    decreases k,
{
    if k <= base || k <= 0 || k > bindings.len() {
        None
    } else if bindings[k - 1].0 == name {
        Some(bindings[k - 1].1)
    } else {
        bound_value(bindings, base, name, k - 1)
    }
}

/// The message for a name that stands for nothing.
pub open spec fn unknown_name(name: Seq<char>) -> Seq<char> {
    "Unknown function name: "@ + name
}

/// Whether an operation takes two numbers and leaves the arithmetic to the host.
pub open spec fn is_binary(i: Intrinsic) -> bool {
    i is Plus || i is Minus || i is Times || i is Divide || i is Modulo || i is Pow || i is Greater
        || i is Less
}

/// The literal value a term pushes when it runs in namespace `ns`.
pub open spec fn literal_of(t: Term, ns: usize) -> Option<ValueModel> {
    match t {
        Term::String(s) => Some(ValueModel::String(s@)),
        Term::Number(n) => Some(ValueModel::Number(n)),
        Term::Bool(b) => Some(ValueModel::Bool(b)),
        Term::Address(n) => Some(ValueModel::Address(ns, n@)),
        _ => None,
    }
}

impl<'a> Machine<'a> {
    /// The namespace whose code is running.
    pub open spec fn current_namespace(self) -> NamespaceId {
        if self.namespaces.len() > 0 {
            self.namespaces.last()
        } else {
            0
        }
    }

    /// Where the variables of the function that is running start.
    pub open spec fn base(self) -> int {
        if self.bases.len() > 0 {
            self.bases.last() as int
        } else {
            0
        }
    }

    /// The machine with another stack.
    pub open spec fn with_stack(self, stack: Seq<ValueModel>) -> Machine<'a> {
        Machine { stack, ..self }
    }

    /// The machine with one more value on its stack.
    pub open spec fn pushed(self, v: ValueModel) -> Machine<'a> {
        Machine { stack: self.stack.push(v), ..self }
    }

    /// The machine without the `n` topmost values of its stack.
    pub open spec fn popped(self, n: int) -> Machine<'a> {
        Machine { stack: self.stack.take(self.stack.len() - n), ..self }
    }

    /// The run fails: the machine keeps the message and its trail and gives up its stack.
    pub open spec fn failed(self, message: Seq<char>) -> (Machine<'a>, StatusModel) {
        (
            Machine {
                stack: Seq::empty(),
                pending: PendingModel::Nothing,
                failure: Some(message),
                ..self
            },
            StatusModel::Failed,
        )
    }

    /// The name that was being run has run to its end and leaves the trail.
    pub open spec fn completed(self) -> (Machine<'a>, StatusModel) {
        (
            Machine { pending: PendingModel::Nothing, trail: without_last(self.trail), ..self },
            StatusModel::Running,
        )
    }

    /// The machine waits for its host to answer `request`.
    pub open spec fn asking(self, request: RequestModel, pending: PendingModel) -> (
        Machine<'a>,
        StatusModel,
    ) {
        (Machine { pending, ..self }, StatusModel::Waiting(request))
    }

    /// The machine at the start of `block`, which becomes its innermost block.
    pub open spec fn entering(self, block: &'a Block, after: After<'a>) -> Machine<'a> {
        Machine {
            frames: self.frames.push(
                Frame { block, next: 0, after, scope: self.bindings.len() as usize },
            ),
            ..self
        }
    }

    /// The machine at the start of arm `arm` of a branch: in the condition of that arm,
    /// or unchanged when the branch has no such arm.
    pub open spec fn starting_arm(self, branch: &'a Branch, arm: int) -> Machine<'a> {
        if 0 <= arm < branch.arms@.len() {
            self.entering(&branch.arms@[arm].0, After::BranchCondition(branch, arm as usize))
        } else {
            self
        }
    }

    /// The machine at the start of a loop: in its first condition, or in its body when
    /// it has no first condition.
    pub open spec fn starting_loop(self, l: &'a Loop) -> Machine<'a> {
        match &l.pre_condition {
            Some(b) => self.entering(b, After::LoopPre(l)),
            None => self.entering(&l.body, After::LoopBody(l)),
        }
    }

    /// What follows a condition: the run fails on an empty stack; else the outcome is
    /// taken off the stack and the run goes on with `yes` if it counts as true and with
    /// `no` if not, both given the machine without the outcome.
    pub open spec fn tested(
        self,
        yes: spec_fn(Machine<'a>) -> Machine<'a>,
        no: spec_fn(Machine<'a>) -> Machine<'a>,
    ) -> (Machine<'a>, StatusModel) {
        if self.stack.len() == 0 {
            self.failed(stack_empty())
        } else if self.stack.last().truthy() {
            (yes(self.popped(1)), StatusModel::Running)
        } else {
            (no(self.popped(1)), StatusModel::Running)
        }
    }

    /// What follows a block that ran to its end, for the machine that has left the block.
    ///
    /// After the body of a function, the call is over: its namespace, its variables
    /// and its entry in the trail go. After the condition of an arm, the body of the arm
    /// is entered if the condition holds, else the next arm is started. After the first
    /// condition of a loop, the body is entered if it holds, else the loop is over.
    /// After the body of a loop, its last condition is entered, or the loop starts
    /// again when it has none. After the last condition, the loop starts again if it
    /// holds, else it is over.
    pub open spec fn after_block(self, after: After<'a>) -> (Machine<'a>, StatusModel) {
        match after {
            After::Nothing => (self, StatusModel::Running),
            After::Return => (
                Machine {
                    namespaces: without_last(self.namespaces),
                    bases: without_last(self.bases),
                    bindings: if self.bases.len() > 0 {
                        cut(self.bindings, self.bases.last())
                    } else {
                        self.bindings
                    },
                    trail: without_last(self.trail),
                    ..self
                },
                StatusModel::Running,
            ),
            After::BranchCondition(branch, arm) => self.tested(
                |m: Machine<'a>|
                    if arm < branch.arms@.len() {
                        m.entering(&branch.arms@[arm as int].1, After::Nothing)
                    } else {
                        m
                    },
                |m: Machine<'a>|
                    if arm < usize::MAX {
                        m.starting_arm(branch, arm + 1)
                    } else {
                        m
                    },
            ),
            After::LoopPre(l) => self.tested(
                |m: Machine<'a>| m.entering(&l.body, After::LoopBody(l)),
                |m: Machine<'a>| m,
            ),
            After::LoopBody(l) => (
                match &l.post_condition {
                    Some(b) => self.entering(b, After::LoopPost(l)),
                    None => self.starting_loop(l),
                },
                StatusModel::Running,
            ),
            After::LoopPost(l) => self.tested(
                |m: Machine<'a>| m.starting_loop(l),
                |m: Machine<'a>| m,
            ),
        }
    }

    /// What using a name that is no built-in operation does in namespace `ns`: the
    /// function it resolves to is called, its body entered and its namespace made the
    /// current one; else the value of the capture variable of that name is pushed; else
    /// the run fails.
    pub open spec fn called(self, program: &'a Program, ns: NamespaceId, name: Seq<char>) -> (
        Machine<'a>,
        StatusModel,
    ) {
        let found = if ns < program@.len() {
            resolution(program@, ns, name)
        } else {
            None
        };
        match found {
            Some((target, i)) => (
                Machine {
                    namespaces: self.namespaces.push(target),
                    bases: self.bases.push(self.bindings.len() as usize),
                    ..self
                }.entering(&program.namespaces@[target as int].functions@[i].body, After::Return),
                StatusModel::Running,
            ),
            None => match bound_value(
                self.bindings,
                self.base(),
                name,
                self.bindings.len() as int,
            ) {
                Some(v) => self.pushed(v).completed(),
                None => self.failed(unknown_name(name)),
            },
        }
    }
}

/// The smaller of two lengths.
pub open spec fn at_most(a: usize, b: usize) -> usize {
    if a < b {
        a
    } else {
        b
    }
}

impl<'a> Machine<'a> {
    /// What an operation on two numbers does: it takes them off the stack and asks the
    /// host for the outcome.
    pub open spec fn two_numbers(self, i: Intrinsic) -> (Machine<'a>, StatusModel) {
        let n = self.stack.len() as int;
        if n < 2 {
            self.failed(stack_empty())
        } else {
            match (self.stack[n - 2], self.stack[n - 1]) {
                (ValueModel::Number(a), ValueModel::Number(b)) => self.popped(2).asking(
                    RequestModel::Binary(i, a, b),
                    PendingModel::Value,
                ),
                _ => self.failed("Expected two numbers on top of stack"@),
            }
        }
    }

    /// What `++` and `--` do: they take a number and ask the host for the outcome.
    pub open spec fn one_number(self, i: Intrinsic) -> (Machine<'a>, StatusModel) {
        match top_number(self.stack) {
            Ok(a) => self.popped(1).asking(RequestModel::Unary(i, a), PendingModel::Value),
            Err(e) => self.failed(e),
        }
    }

    /// What `==` does: two numbers are left to the host; two strings or two truth
    /// values are compared; anything else fails.
    pub open spec fn compared(self) -> (Machine<'a>, StatusModel) {
        let n = self.stack.len() as int;
        if n < 2 {
            self.failed(stack_empty())
        } else {
            match (self.stack[n - 2], self.stack[n - 1]) {
                (ValueModel::Number(a), ValueModel::Number(b)) => self.popped(2).asking(
                    RequestModel::Binary(Intrinsic::Equals, a, b),
                    PendingModel::Value,
                ),
                (ValueModel::String(a), ValueModel::String(b)) => self.popped(2).pushed(
                    ValueModel::Bool(a == b),
                ).completed(),
                (ValueModel::Bool(a), ValueModel::Bool(b)) => self.popped(2).pushed(
                    ValueModel::Bool(a == b),
                ).completed(),
                _ => self.failed("Mismatched types cannot be compared with =="@),
            }
        }
    }

    /// The second half of `join`: the text of the first operand is known. A number as
    /// second operand is shown by the host; else the joined text is pushed.
    pub open spec fn join_with(self, first: Seq<char>, second: ValueModel) -> (
        Machine<'a>,
        StatusModel,
    ) {
        match second {
            ValueModel::Number(n) => self.asking(
                RequestModel::Show(n),
                PendingModel::JoinSecond(first),
            ),
            other => self.pushed(ValueModel::String(first + shown(other, Seq::empty()))).completed(),
        }
    }

    /// What `join` does: it takes two values and pushes their texts, joined. The text of
    /// a number comes from the host.
    pub open spec fn joined(self) -> (Machine<'a>, StatusModel) {
        let n = self.stack.len() as int;
        if n < 2 {
            self.failed(stack_empty())
        } else {
            match self.stack[n - 2] {
                ValueModel::Number(x) => self.popped(2).asking(
                    RequestModel::Show(x),
                    PendingModel::JoinFirst(self.stack[n - 1]),
                ),
                other => self.popped(2).join_with(shown(other, Seq::empty()), self.stack[n - 1]),
            }
        }
    }

    /// What `index` does: it takes the text to look for and, below it, the text to look
    /// in, and pushes the first offset at which the one stands in the other, which the
    /// host turns into a number, or minus one.
    pub open spec fn indexed(self) -> (Machine<'a>, StatusModel) {
        match top_string(self.stack) {
            Err(e) => self.failed(e),
            Ok(needle) => match top_string(self.stack.drop_last()) {
                Err(e) => self.failed(e),
                Ok(hay) => match first_place(hay, needle) {
                    Some(at) => self.popped(2).asking(
                        RequestModel::FromIndex(at as usize),
                        PendingModel::Converted("String index cannot be converted to number"@),
                    ),
                    None => self.popped(2).pushed(
                        ValueModel::Number(Number { bits: 0xBFF0_0000_0000_0000u64 }),
                    ).completed(),
                },
            },
        }
    }

    /// What `print` does: it takes a value and has the host print its text. The text of
    /// a number comes from the host first.
    pub open spec fn printed(self) -> (Machine<'a>, StatusModel) {
        if self.stack.len() == 0 {
            self.failed(stack_empty())
        } else {
            match self.stack.last() {
                ValueModel::Number(n) => self.popped(1).asking(
                    RequestModel::Show(n),
                    PendingModel::PrintText,
                ),
                v => self.popped(1).asking(
                    RequestModel::Print(shown(v, Seq::empty())),
                    PendingModel::Printed,
                ),
            }
        }
    }

    /// What `assert` does: it takes a message and, below it, a value, and fails with
    /// the message unless the value counts as true.
    pub open spec fn asserted(self) -> (Machine<'a>, StatusModel) {
        match top_string(self.stack) {
            Err(e) => self.failed(e),
            Ok(message) => if self.stack.len() < 2 {
                self.failed(stack_empty())
            } else if self.stack[self.stack.len() - 2].truthy() {
                self.popped(2).completed()
            } else {
                self.failed("Assertion failed: "@ + message)
            },
        }
    }

    /// What `to_char` does: it takes a string of one character and pushes the code of
    /// that character, which the host turns into a number.
    pub open spec fn char_code(self) -> (Machine<'a>, StatusModel) {
        match top_string(self.stack) {
            Err(e) => self.failed(e),
            Ok(s) => if s.len() != 1 {
                self.failed("to_ascii only works on strings with length: 1"@)
            } else {
                self.popped(1).asking(
                    RequestModel::FromIndex(s[0] as u32 as usize),
                    PendingModel::Converted("Character code cannot be converted to number"@),
                )
            },
        }
    }

    /// What a built-in operation other than `eval` does.
    pub open spec fn operated(self, i: Intrinsic) -> (Machine<'a>, StatusModel) {
        if is_stack_only(i) {
            match stack_effect(i, self.stack) {
                Ok(after) => self.with_stack(after).completed(),
                Err(e) => self.failed(e),
            }
        } else if is_binary(i) {
            self.two_numbers(i)
        } else {
            match i {
                Intrinsic::Increment | Intrinsic::Decrement => self.one_number(i),
                Intrinsic::Equals => self.compared(),
                Intrinsic::Substring => match top_number(self.stack) {
                    Ok(end) => self.popped(1).asking(
                        RequestModel::ToIndex(end),
                        PendingModel::SubstringEnd,
                    ),
                    Err(e) => self.failed(e),
                },
                Intrinsic::Join => self.joined(),
                Intrinsic::Length => match top_string(self.stack) {
                    Ok(s) => self.popped(1).asking(
                        RequestModel::FromIndex(s.len() as usize),
                        PendingModel::Converted("String length is out of range"@),
                    ),
                    Err(e) => self.failed(e),
                },
                Intrinsic::ToChar => self.char_code(),
                Intrinsic::FromChar => match top_number(self.stack) {
                    Ok(n) => self.popped(1).asking(
                        RequestModel::ToIndex(n),
                        PendingModel::FromChar,
                    ),
                    Err(e) => self.failed(e),
                },
                Intrinsic::Index => self.indexed(),
                Intrinsic::Print => self.printed(),
                Intrinsic::Readline => self.asking(RequestModel::ReadLine, PendingModel::Line),
                Intrinsic::Assert => self.asserted(),
                _ => (self, StatusModel::Running),
            }
        }
    }

    /// What `eval` does: it takes a function pointer and runs what the pointer points
    /// to, in the namespace the pointer was taken in. A pointer to `eval` passes the call
    /// on to the pointer below it.
    pub open spec fn evaluated(self, program: &'a Program) -> (Machine<'a>, StatusModel)
        decreases self.stack.len(),
    {
        if self.stack.len() == 0 {
            self.failed(stack_empty())
        } else {
            match self.stack.last() {
                ValueModel::Address(ns, name) => match intrinsic_named(name) {
                    Some(i) => if i is Eval {
                        self.popped(1).evaluated(program)
                    } else {
                        self.popped(1).operated(i)
                    },
                    None => self.popped(1).called(program, ns, name),
                },
                _ => self.failed("Expected function pointer on top of stack"@),
            }
        }
    }

    /// What a built-in operation does.
    pub open spec fn built_in(self, program: &'a Program, i: Intrinsic) -> (
        Machine<'a>,
        StatusModel,
    ) {
        if i is Eval {
            self.evaluated(program)
        } else {
            self.operated(i)
        }
    }

    /// What using a name does in namespace `ns`: a built-in operation runs; any other
    /// name does what [`Machine::called`] says.
    pub open spec fn named(self, program: &'a Program, ns: NamespaceId, name: Seq<char>) -> (
        Machine<'a>,
        StatusModel,
    ) {
        match intrinsic_named(name) {
            Some(i) => self.built_in(program, i),
            None => self.called(program, ns, name),
        }
    }

    /// What running a term does: a literal is pushed; a name enters the trail and does
    /// what [`Machine::named`] says; a capture takes the top of the stack and binds it to
    /// its name; a branch starts its first arm; a loop starts.
    pub open spec fn term_run(self, program: &'a Program, t: &'a Term) -> (
        Machine<'a>,
        StatusModel,
    ) {
        match t {
            Term::Name(n, range) => Machine {
                trail: self.trail.push(
                    BacktraceItem { namespace: self.current_namespace(), name: *n, range: *range },
                ),
                ..self
            }.named(program, self.current_namespace(), n@),
            Term::Capture(n, _) => if self.stack.len() == 0 {
                self.failed(stack_empty())
            } else {
                (
                    Machine {
                        bindings: self.bindings.push((n@, self.stack.last())),
                        ..self.popped(1)
                    },
                    StatusModel::Running,
                )
            },
            Term::Branch(b) => (self.starting_arm(b, 0), StatusModel::Running),
            Term::Loop(l) => (self.starting_loop(l), StatusModel::Running),
            _ => (
                self.pushed(literal_of(*t, self.current_namespace())->0),
                StatusModel::Running,
            ),
        }
    }

    /// What one step does. A machine that failed stays as it is; one that waits for
    /// its host fails; one that has no block left has finished. Else the next term of
    /// the innermost block runs, or, when that block has no term left, the block is
    /// left: the variables bound in it go, and what follows it happens.
    pub open spec fn stepped(self, program: &'a Program) -> (Machine<'a>, StatusModel) {
        if self.failure is Some {
            (self, StatusModel::Failed)
        } else if !(self.pending is Nothing) {
            self.failed("The host has not answered the last request"@)
        } else if self.frames.len() == 0 {
            (self, StatusModel::Finished)
        } else {
            let top = self.frames.last();
            if top.next < top.block.terms@.len() {
                Machine {
                    frames: self.frames.drop_last().push(
                        Frame {
                            block: top.block,
                            next: (top.next + 1) as usize,
                            after: top.after,
                            scope: top.scope,
                        },
                    ),
                    ..self
                }.term_run(program, &top.block.terms@[top.next as int])
            } else {
                Machine {
                    frames: self.frames.drop_last(),
                    bindings: cut(self.bindings, top.scope),
                    ..self
                }.after_block(top.after)
            }
        }
    }

    /// What up to `limit` steps do: steps are taken as long as the run goes on.
    pub open spec fn run_for(self, program: &'a Program, limit: nat) -> (Machine<'a>, StatusModel)
        decreases limit,
    {
        if limit == 0 {
            (self, StatusModel::Running)
        } else {
            let next = self.stepped(program);
            if next.1 is Running {
                next.0.run_for(program, (limit - 1) as nat)
            } else {
                next
            }
        }
    }

    /// The end of `substring`: the string is taken, and the part of it from `start` up
    /// to `end` is pushed. An offset behind the string counts as its length, and an end
    /// before the start as the start.
    pub open spec fn cut_out(self, start: usize, end: usize) -> (Machine<'a>, StatusModel) {
        match top_string(self.stack) {
            Err(e) => self.failed(e),
            Ok(whole) => {
                let from = at_most(start, whole.len() as usize);
                let upto = at_most(end, whole.len() as usize);
                let to = if upto < from {
                    from
                } else {
                    upto
                };
                self.popped(1).pushed(
                    ValueModel::String(whole.subrange(from as int, to as int)),
                ).completed()
            },
        }
    }

    /// What an answer of the host does to the machine that waited for it.
    ///
    /// An answer nobody waited for fails the run, and so does a failure of the host,
    /// with its message. The outcome of an operation on numbers is pushed. An index
    /// turned into a number is pushed, or the run fails when no number holds it. The
    /// offsets of `substring` come one after the other, the end first. The code that
    /// `from_char` waits for gives the string of that character, if it is the code of
    /// one. The texts of `join` and `print` go on to the next half of the operation. A
    /// line that was read is pushed with `true` above it, and an empty string with
    /// `false` at the end of input. Any other answer does not fit and fails the run.
    pub open spec fn answered(self, reply: ReplyModel) -> (Machine<'a>, StatusModel) {
        match (self.pending, reply) {
            (PendingModel::Nothing, _) => self.failed("No request is waiting for an answer"@),
            (_, ReplyModel::Failed(m)) => self.failed(m),
            (PendingModel::Value, ReplyModel::Number(n)) => self.pushed(
                ValueModel::Number(n),
            ).completed(),
            (PendingModel::Value, ReplyModel::Bool(b)) => self.pushed(
                ValueModel::Bool(b),
            ).completed(),
            (PendingModel::Converted(_), ReplyModel::Number(n)) => self.pushed(
                ValueModel::Number(n),
            ).completed(),
            (PendingModel::Converted(m), ReplyModel::Index(None)) => self.failed(m),
            (PendingModel::SubstringEnd, ReplyModel::Index(Some(end))) => match top_number(
                self.stack,
            ) {
                Ok(start) => self.popped(1).asking(
                    RequestModel::ToIndex(start),
                    PendingModel::SubstringStart(end),
                ),
                Err(e) => self.failed(e),
            },
            (PendingModel::SubstringEnd, ReplyModel::Index(None)) => self.failed(
                "Invalid substring end index"@,
            ),
            (PendingModel::SubstringStart(end), ReplyModel::Index(Some(start))) => self.cut_out(
                start,
                end,
            ),
            (PendingModel::SubstringStart(_), ReplyModel::Index(None)) => self.failed(
                "Invalid substring start index"@,
            ),
            (PendingModel::FromChar, ReplyModel::Index(Some(code))) => if code <= 0x10FFFF
                && is_scalar(code as u32) {
                self.pushed(ValueModel::String(seq![code as u32 as char])).completed()
            } else {
                self.failed("from_char only works with valid unicode codepoints"@)
            },
            (PendingModel::FromChar, ReplyModel::Index(None)) => self.failed(
                "from_char only works with valid unicode codepoints"@,
            ),
            (PendingModel::JoinFirst(second), ReplyModel::Text(text)) => Machine {
                pending: PendingModel::Nothing,
                ..self
            }.join_with(text, second),
            (PendingModel::JoinSecond(first), ReplyModel::Text(text)) => self.pushed(
                ValueModel::String(first + text),
            ).completed(),
            (PendingModel::PrintText, ReplyModel::Text(text)) => self.asking(
                RequestModel::Print(text),
                PendingModel::Printed,
            ),
            (PendingModel::Printed, ReplyModel::Done) => self.completed(),
            (PendingModel::Line, ReplyModel::Line(Some(l))) => self.pushed(
                ValueModel::String(l),
            ).pushed(ValueModel::Bool(true)).completed(),
            (PendingModel::Line, ReplyModel::Line(None)) => self.pushed(
                ValueModel::String(Seq::empty()),
            ).pushed(ValueModel::Bool(false)).completed(),
            _ => self.failed("The answer does not fit the request"@),
        }
    }
}

impl<'a> Machine<'a> {
    /// A machine that has run nothing yet and holds the given stack.
    pub open spec fn fresh(stack: Seq<ValueModel>) -> Machine<'a> {
        Machine {
            stack,
            namespaces: Seq::empty(),
            trail: Seq::empty(),
            frames: Seq::empty(),
            bindings: Seq::empty(),
            bases: Seq::empty(),
            pending: PendingModel::Nothing,
            failure: None,
        }
    }
}

impl<'a> Interpreter<'a> {
    /// A machine with an empty stack.
    pub fn begin(program: &'a Program) -> (r: Interpreter<'a>)
        ensures
            r.program == program,
            r@ == Machine::<'a>::fresh(Seq::empty()),
    {
        let r = Interpreter::from_snapshot(InterpreterSnapshot { stack: Vec::new() }, program);
        assert(r@.stack =~= Seq::empty());
        r
    }

    /// A machine that starts with the stack of an earlier run.
    pub fn from_snapshot(snapshot: InterpreterSnapshot, program: &'a Program) -> (r: Interpreter<
        'a,
    >)
        ensures
            r.program == program,
            r.stack == snapshot.stack,
            r@ == Machine::<'a>::fresh(values(snapshot.stack@)),
    {
        let r = Interpreter {
            stack: snapshot.stack,
            namespace_stack: Vec::new(),
            program,
            backtrace: Vec::new(),
            frames: Vec::new(),
            bindings: Vec::new(),
            bases: Vec::new(),
            pending: Pending::Nothing,
            failure: None,
        };
        assert(r@.bindings =~= Seq::empty());
        r
    }

    /// Sets the machine to run `block` next.
    pub fn start(&mut self, block: &'a Block)
        ensures
            final(self).program == old(self).program,
            final(self)@ == old(self)@.entering(block, After::Nothing),
    {
        self.enter(block, After::Nothing);
    }

    /// What is left of a run: the stack of a run that did not fail, else the message
    /// and the trail of calls that led to the failure.
    pub fn finish(self) -> (r: Result<InterpreterSnapshot, (InterpreterError, Vec<BacktraceItem>)>)
        ensures
            match self@.failure {
                Some(e) => r is Err && r->Err_0.0@ == e && r->Err_0.1@ == self@.trail,
                None => r is Ok && values(r->Ok_0.stack@) == self@.stack,
            },
    {
        match self.failure {
            Some(e) => Err((e, self.backtrace)),
            None => Ok(InterpreterSnapshot { stack: self.stack }),
        }
    }

    /// The namespace whose code is running.
    pub fn get_current_namespace(&self) -> (r: usize)
        ensures
            r == self@.current_namespace(),
    {
        let n = self.namespace_stack.len();
        if n > 0 {
            self.namespace_stack[n - 1]
        } else {
            0
        }
    }

    /// Takes the top of the stack.
    pub fn take(&mut self) -> (r: Result<Value, InterpreterError>)
        ensures
            final(self).program == old(self).program,
            old(self)@.stack.len() == 0 ==> r is Err && r->Err_0@ == stack_empty() && final(self)@
                == old(self)@,
            old(self)@.stack.len() > 0 ==> r is Ok && r->Ok_0@ == old(self)@.stack.last()
                && final(self)@ == old(self)@.popped(1),
    {
        take(&mut self.stack)
    }

    /// Takes the top of the stack, which must be a number.
    pub fn take_number(&mut self) -> (r: Result<Number, InterpreterError>)
        ensures
            final(self).program == old(self).program,
            match top_number(old(self)@.stack) {
                Ok(n) => r == Ok::<Number, InterpreterError>(n),
                Err(e) => r is Err && r->Err_0@ == e,
            },
            old(self)@.stack.len() == 0 ==> final(self)@ == old(self)@,
            old(self)@.stack.len() > 0 ==> final(self)@ == old(self)@.popped(1),
    {
        take_number(&mut self.stack)
    }

    /// Takes the top of the stack, which must be a string.
    pub fn take_string(&mut self) -> (r: Result<CharString, InterpreterError>)
        ensures
            final(self).program == old(self).program,
            match top_string(old(self)@.stack) {
                Ok(s) => r is Ok && r->Ok_0@ == s,
                Err(e) => r is Err && r->Err_0@ == e,
            },
            old(self)@.stack.len() == 0 ==> final(self)@ == old(self)@,
            old(self)@.stack.len() > 0 ==> final(self)@ == old(self)@.popped(1),
    {
        take_string(&mut self.stack)
    }

    /// Puts a value on top of the stack.
    pub fn push(&mut self, v: Value)
        ensures
            final(self).program == old(self).program,
            final(self)@ == old(self)@.pushed(v@),
    {
        push(&mut self.stack, v)
    }

    /// Puts two values on the stack, the first below the second.
    pub fn push2(&mut self, a: Value, b: Value)
        ensures
            final(self).program == old(self).program,
            final(self)@ == old(self)@.pushed(a@).pushed(b@),
    {
        push2(&mut self.stack, a, b)
    }

    /// Puts three values on the stack, the first lowest.
    pub fn push3(&mut self, a: Value, b: Value, c: Value)
        ensures
            final(self).program == old(self).program,
            final(self)@ == old(self)@.pushed(a@).pushed(b@).pushed(c@),
    {
        crate::stack::push3(&mut self.stack, a, b, c)
    }

    /// Takes the two topmost values; the lower one comes first.
    pub fn take2(&mut self) -> (r: Result<(Value, Value), InterpreterError>)
        ensures
            final(self).program == old(self).program,
            old(self)@.stack.len() < 2 ==> r is Err && r->Err_0@ == stack_empty() && final(self)@
                == old(self)@.with_stack(Seq::empty()),
            old(self)@.stack.len() >= 2 ==> r is Ok && r->Ok_0.0@ == old(self)@.stack[old(
                self,
            )@.stack.len() - 2] && r->Ok_0.1@ == old(self)@.stack[old(self)@.stack.len() - 1]
                && final(self)@ == old(self)@.popped(2),
    {
        let r = take2(&mut self.stack);
        assert(r is Err ==> values(self.stack@) =~= Seq::empty());
        r
    }

    /// Takes the three topmost values; the lowest one comes first.
    pub fn take3(&mut self) -> (r: Result<(Value, Value, Value), InterpreterError>)
        ensures
            final(self).program == old(self).program,
            old(self)@.stack.len() < 3 ==> r is Err && r->Err_0@ == stack_empty() && final(self)@
                == old(self)@.with_stack(Seq::empty()),
            old(self)@.stack.len() >= 3 ==> r is Ok && final(self)@ == old(self)@.popped(3) && old(
                self,
            )@.stack.subrange(old(self)@.stack.len() - 3, old(self)@.stack.len() as int)
                == seq![r->Ok_0.0@, r->Ok_0.1@, r->Ok_0.2@],
    {
        let ghost before = values(self.stack@);
        let r = crate::stack::take3(&mut self.stack);
        assert(before.len() < 3 ==> values(self.stack@) =~= Seq::empty());
        proof {
            if before.len() >= 3 {
                assert(before.subrange(before.len() - 3, before.len() as int) =~= seq![
                    r->Ok_0.0@,
                    r->Ok_0.1@,
                    r->Ok_0.2@,
                ]);
            }
        }
        r
    }

    /// Takes the two topmost values, which must be numbers; the lower one comes first.
    pub fn take2_numbers(&mut self) -> (r: Result<(Number, Number), InterpreterError>)
        ensures
            final(self).program == old(self).program,
            old(self)@.stack.len() < 2 ==> r is Err && r->Err_0@ == stack_empty() && final(self)@
                == old(self)@.with_stack(Seq::empty()),
            old(self)@.stack.len() >= 2 ==> final(self)@ == old(self)@.popped(2) && match (
                old(self)@.stack[old(self)@.stack.len() - 2],
                old(self)@.stack[old(self)@.stack.len() - 1],
            ) {
                (ValueModel::Number(a), ValueModel::Number(b)) => r is Ok && r->Ok_0 == (a, b),
                _ => r is Err && r->Err_0@ == "Expected two numbers on top of stack"@,
            },
    {
        let r = take2_numbers(&mut self.stack);
        assert(old(self)@.stack.len() < 2 ==> values(self.stack@) =~= Seq::empty());
        r
    }

    /// The run fails.
    fn fail(&mut self, message: String) -> (r: Status)
        ensures
            final(self).program == old(self).program,
            (final(self)@, r@) == old(self)@.failed(message@),
    {
        self.failure = Some(message);
        self.pending = Pending::Nothing;
        self.stack.clear();
        assert(values(self.stack@) =~= Seq::empty());
        Status::Failed
    }

    /// The run fails with a fixed message.
    fn fail_with(&mut self, message: &str) -> (r: Status)
        ensures
            final(self).program == old(self).program,
            (final(self)@, r@) == old(self)@.failed(message@),
    {
        self.fail(String::from_str(message))
    }

    /// A name has run to its end: its entry leaves the trail.
    fn done(&mut self) -> (r: Status)
        ensures
            final(self).program == old(self).program,
            (final(self)@, r@) == old(self)@.completed(),
    {
        self.pending = Pending::Nothing;
        self.backtrace.pop();
        assert(self.backtrace@ =~= without_last(old(self).backtrace@));
        Status::Running
    }

    /// Hands a request to the host.
    fn ask(&mut self, request: Request, pending: Pending) -> (r: Status)
        ensures
            final(self).program == old(self).program,
            (final(self)@, r@) == old(self)@.asking(request@, pending@),
    {
        self.pending = pending;
        Status::Waiting(request)
    }

    /// Makes `block` the innermost block.
    fn enter(&mut self, block: &'a Block, after: After<'a>)
        ensures
            final(self).program == old(self).program,
            final(self)@ == old(self)@.entering(block, after),
    {
        let scope = self.bindings.len();
        self.frames.push(Frame { block, next: 0, after, scope });
    }

    /// Starts arm `arm` of a branch.
    fn start_arm(&mut self, branch: &'a Branch, arm: usize)
        ensures
            final(self).program == old(self).program,
            final(self)@ == old(self)@.starting_arm(branch, arm as int),
    {
        if arm < branch.arms.len() {
            self.enter(&branch.arms[arm].0, After::BranchCondition(branch, arm));
        }
    }

    /// Starts a loop.
    fn start_loop(&mut self, l: &'a Loop)
        ensures
            final(self).program == old(self).program,
            final(self)@ == old(self)@.starting_loop(l),
    {
        match &l.pre_condition {
            Some(b) => self.enter(b, After::LoopPre(l)),
            None => self.enter(&l.body, After::LoopBody(l)),
        }
    }

    /// Binds a capture variable.
    fn bind(&mut self, name: String, v: Value)
        ensures
            final(self).program == old(self).program,
            final(self)@ == (Machine {
                bindings: old(self)@.bindings.push((name@, v@)),
                ..old(self)@
            }),
    {
        let ghost pair = (name@, v@);
        self.bindings.push((name, v));
        assert(bound(self.bindings@) =~= bound(old(self).bindings@).push(pair));
    }

    /// Forgets the capture variables behind the first `n`.
    fn unbind(&mut self, n: usize)
        ensures
            final(self).program == old(self).program,
            final(self)@ == (Machine { bindings: cut(old(self)@.bindings, n), ..old(self)@ }),
    {
        if n <= self.bindings.len() {
            self.bindings.truncate(n);
        }
        assert(bound(self.bindings@) =~= cut(bound(old(self).bindings@), n));
    }

    /// Takes the outcome of a condition off the stack.
    fn test(&mut self) -> (r: Result<bool, String>)
        ensures
            final(self).program == old(self).program,
            old(self)@.stack.len() == 0 ==> r is Err && r->Err_0@ == stack_empty() && final(self)@
                == old(self)@,
            old(self)@.stack.len() > 0 ==> r is Ok && r->Ok_0 == old(self)@.stack.last().truthy()
                && final(self)@ == old(self)@.popped(1),
    {
        match take(&mut self.stack) {
            Ok(v) => Ok(v.is_truthy()),
            Err(e) => Err(e),
        }
    }

    /// What follows a block that ran to its end.
    fn leave(&mut self, after: After<'a>) -> (r: Status)
        ensures
            final(self).program == old(self).program,
            (final(self)@, r@) == old(self)@.after_block(after),
    {
        match after {
            After::Nothing => Status::Running,
            After::Return => {
                self.namespace_stack.pop();
                match self.bases.pop() {
                    Some(base) => {
                        self.unbind(base);
                    },
                    None => {},
                }
                self.backtrace.pop();
                assert(self.namespace_stack@ =~= without_last(old(self).namespace_stack@));
                assert(self.bases@ =~= without_last(old(self).bases@));
                assert(self.backtrace@ =~= without_last(old(self).backtrace@));
                Status::Running
            },
            After::BranchCondition(branch, arm) => match self.test() {
                Err(e) => self.fail(e),
                Ok(true) => {
                    if arm < branch.arms.len() {
                        self.enter(&branch.arms[arm].1, After::Nothing);
                    }
                    Status::Running
                },
                Ok(false) => {
                    if arm < usize::MAX {
                        self.start_arm(branch, arm + 1);
                    }
                    Status::Running
                },
            },
            After::LoopPre(l) => match self.test() {
                Err(e) => self.fail(e),
                Ok(true) => {
                    self.enter(&l.body, After::LoopBody(l));
                    Status::Running
                },
                Ok(false) => Status::Running,
            },
            After::LoopBody(l) => {
                match &l.post_condition {
                    Some(b) => self.enter(b, After::LoopPost(l)),
                    None => self.start_loop(l),
                }
                Status::Running
            },
            After::LoopPost(l) => match self.test() {
                Err(e) => self.fail(e),
                Ok(true) => {
                    self.start_loop(l);
                    Status::Running
                },
                Ok(false) => Status::Running,
            },
        }
    }

    /// The value bound to a capture variable in the function that is running.
    fn lookup(&self, name: &str) -> (r: Option<Value>)
        ensures
            match bound_value(
                self@.bindings,
                self@.base(),
                name@,
                self@.bindings.len() as int,
            ) {
                Some(v) => r is Some && r->0@ == v,
                None => r is None,
            },
    {
        let base = if self.bases.len() > 0 {
            self.bases[self.bases.len() - 1]
        } else {
            0
        };
        let wanted = String::from_str(name);
        let mut i = self.bindings.len();
        while i > base
            invariant
                i <= self.bindings.len(),
                wanted@ == name@,
                base as int == self@.base(),
                bound_value(self@.bindings, base as int, name@, self@.bindings.len() as int)
                    == bound_value(self@.bindings, base as int, name@, i as int),
            decreases i,
        {
            i -= 1;
            if self.bindings[i].0 == wanted {
                return Some(self.bindings[i].1.duplicate());
            }
        }
        None
    }

    /// Calls the function that `name` stands for in the given namespace.
    fn call(&mut self, namespace: usize, name: &str) -> (r: Status)
        requires
            program_wf(old(self).program@),
        ensures
            final(self).program == old(self).program,
            (final(self)@, r@) == old(self)@.called(old(self).program, namespace, name@),
    {
        let program: &'a Program = self.program;
        if namespace < program.namespaces.len() {
            match program.resolve_function(namespace, name) {
                Some((ns, index)) => {
                    assert(program@[ns as int] == program.namespaces@[ns as int]@);
                    let function = &program.namespaces[ns].functions[index];
                    self.namespace_stack.push(ns);
                    self.bases.push(self.bindings.len());
                    self.enter(&function.body, After::Return);
                    return Status::Running;
                },
                None => {},
            }
        }
        match self.lookup(name) {
            Some(v) => {
                push(&mut self.stack, v);
                self.done()
            },
            None => {
                let mut message: Vec<char> = Vec::new();
                push_str(&mut message, "Unknown function name: ");
                push_str(&mut message, name);
                assert(message@ =~= unknown_name(name@));
                self.fail(string_of(&message))
            },
        }
    }
}

/// The offset that a search found is the first place of the text.
proof fn found_is_first_place(hay: Seq<char>, needle: Seq<char>, found: Option<usize>)
    requires
        match found {
            Some(i) => occurs_at(hay, needle, i as int) && forall|j: int|
                0 <= j < i ==> !occurs_at(hay, needle, j),
            None => forall|j: int| !occurs_at(hay, needle, j),
        },
    ensures
        match found {
            Some(i) => first_place(hay, needle) == Some(i as int),
            None => first_place(hay, needle) is None,
        },
{
    match found {
        Some(i) => {
            assert(is_first_place(hay, needle, i as int));
            let c = choose|c: int| is_first_place(hay, needle, c);
            assert(is_first_place(hay, needle, c));
            if c < i {
                assert(!occurs_at(hay, needle, c));
            }
            if i < c {
                assert(!occurs_at(hay, needle, i as int));
            }
        },
        None => {},
    }
}

impl<'a> Interpreter<'a> {
    /// Runs `==`.
    fn run_equals(&mut self) -> (r: Status)
        ensures
            final(self).program == old(self).program,
            (final(self)@, r@) == old(self)@.compared(),
    {
        match take2(&mut self.stack) {
            Ok((Value::Number(a), Value::Number(b))) => self.ask(
                Request::Binary(Intrinsic::Equals, a, b),
                Pending::Value,
            ),
            Ok((Value::String(a), Value::String(b))) => {
                push(&mut self.stack, Value::Bool(a.same(&b)));
                self.done()
            },
            Ok((Value::Bool(a), Value::Bool(b))) => {
                push(&mut self.stack, Value::Bool(a == b));
                self.done()
            },
            Ok(_) => self.fail_with("Mismatched types cannot be compared with =="),
            Err(e) => self.fail(e),
        }
    }

    /// Runs `join`.
    fn run_join(&mut self) -> (r: Status)
        ensures
            final(self).program == old(self).program,
            (final(self)@, r@) == old(self)@.joined(),
    {
        match take2(&mut self.stack) {
            Ok((Value::Number(n), second)) => self.ask(Request::Show(n), Pending::JoinFirst(second)),
            Ok((first, second)) => {
                let none: Vec<char> = Vec::new();
                let text = CharString::from_chars(show(&first, &none));
                assert(none@ =~= Seq::empty());
                self.join_second(text, second)
            },
            Err(e) => self.fail(e),
        }
    }

    /// Runs the second half of `join`.
    fn join_second(&mut self, first: CharString, second: Value) -> (r: Status)
        ensures
            final(self).program == old(self).program,
            (final(self)@, r@) == old(self)@.join_with(first@, second@),
    {
        match second {
            Value::Number(n) => self.ask(Request::Show(n), Pending::JoinSecond(first)),
            other => {
                let none: Vec<char> = Vec::new();
                let text = CharString::from_chars(show(&other, &none));
                assert(none@ =~= Seq::empty());
                push(&mut self.stack, Value::String(first.joined(&text)));
                self.done()
            },
        }
    }

    /// Runs `index`.
    fn run_index(&mut self) -> (r: Status)
        ensures
            final(self).program == old(self).program,
            (final(self)@, r@) == old(self)@.indexed(),
    {
        let needle = match take_string(&mut self.stack) {
            Ok(s) => s,
            Err(e) => {
                return self.fail(e);
            },
        };
        let haystack = match take_string(&mut self.stack) {
            Ok(s) => s,
            Err(e) => {
                return self.fail(e);
            },
        };
        assert(values(self.stack@) =~= old(self)@.stack.take(old(self)@.stack.len() - 2));
        let found = haystack.find(&needle);
        proof {
            haystack.view_is_chars();
            needle.view_is_chars();
            found_is_first_place(haystack@, needle@, found);
        }
        match found {
            Some(at) => self.ask(
                Request::FromIndex(at),
                Pending::Converted(String::from_str("String index cannot be converted to number")),
            ),
            None => {
                push(&mut self.stack, Value::Number(minus_one()));
                self.done()
            },
        }
    }

    /// Runs `print`.
    fn run_print(&mut self) -> (r: Status)
        ensures
            final(self).program == old(self).program,
            (final(self)@, r@) == old(self)@.printed(),
    {
        match take(&mut self.stack) {
            Ok(Value::Number(n)) => self.ask(Request::Show(n), Pending::PrintText),
            Ok(v) => {
                let none: Vec<char> = Vec::new();
                assert(none@ =~= Seq::empty());
                let text = string_of(&show(&v, &none));
                self.ask(Request::Print(text), Pending::Printed)
            },
            Err(e) => self.fail(e),
        }
    }

    /// Runs `assert`.
    fn run_assert(&mut self) -> (r: Status)
        ensures
            final(self).program == old(self).program,
            (final(self)@, r@) == old(self)@.asserted(),
    {
        let message = match take_string(&mut self.stack) {
            Ok(s) => s,
            Err(e) => {
                return self.fail(e);
            },
        };
        match self.test() {
            Ok(true) => {
                assert(values(self.stack@) =~= old(self)@.stack.take(old(self)@.stack.len() - 2));
                self.done()
            },
            Ok(false) => {
                let mut text: Vec<char> = Vec::new();
                push_str(&mut text, "Assertion failed: ");
                push_str(&mut text, message.text().as_str());
                assert(text@ =~= "Assertion failed: "@ + message@);
                self.fail(string_of(&text))
            },
            Err(e) => self.fail(e),
        }
    }

    /// Runs `to_char`.
    fn run_to_char(&mut self) -> (r: Status)
        ensures
            final(self).program == old(self).program,
            (final(self)@, r@) == old(self)@.char_code(),
    {
        match take_string(&mut self.stack) {
            Ok(s) => {
                proof {
                    s.view_is_chars();
                }
                if s.len() != 1 {
                    self.fail_with("to_ascii only works on strings with length: 1")
                } else {
                    let code = s.get(0) as u32;
                    self.ask(
                        Request::FromIndex(code as usize),
                        Pending::Converted(
                            String::from_str("Character code cannot be converted to number"),
                        ),
                    )
                }
            },
            Err(e) => self.fail(e),
        }
    }

    /// Runs a built-in operation other than `eval`.
    fn run_simple(&mut self, i: Intrinsic) -> (r: Status)
        requires
            !(i is Eval),
        ensures
            final(self).program == old(self).program,
            (final(self)@, r@) == old(self)@.operated(i),
    {
        match i {
            Intrinsic::Or | Intrinsic::And | Intrinsic::Swap | Intrinsic::Dup | Intrinsic::Over
            | Intrinsic::Rot | Intrinsic::Drop | Intrinsic::Not => match apply(i, &mut self.stack) {
                Ok(()) => self.done(),
                Err(e) => self.fail(e),
            },
            Intrinsic::Plus | Intrinsic::Minus | Intrinsic::Times | Intrinsic::Divide
            | Intrinsic::Modulo | Intrinsic::Pow | Intrinsic::Greater | Intrinsic::Less => {
                match take2_numbers(&mut self.stack) {
                    Ok((a, b)) => self.ask(Request::Binary(i, a, b), Pending::Value),
                    Err(e) => self.fail(e),
                }
            },
            Intrinsic::Increment | Intrinsic::Decrement => match take_number(&mut self.stack) {
                Ok(a) => self.ask(Request::Unary(i, a), Pending::Value),
                Err(e) => self.fail(e),
            },
            Intrinsic::Equals => self.run_equals(),
            Intrinsic::Substring => match take_number(&mut self.stack) {
                Ok(end) => self.ask(Request::ToIndex(end), Pending::SubstringEnd),
                Err(e) => self.fail(e),
            },
            Intrinsic::Join => self.run_join(),
            Intrinsic::Length => match take_string(&mut self.stack) {
                Ok(s) => {
                    proof {
                        s.view_is_chars();
                    }
                    self.ask(
                        Request::FromIndex(s.len()),
                        Pending::Converted(String::from_str("String length is out of range")),
                    )
                },
                Err(e) => self.fail(e),
            },
            Intrinsic::ToChar => self.run_to_char(),
            Intrinsic::FromChar => match take_number(&mut self.stack) {
                Ok(n) => self.ask(Request::ToIndex(n), Pending::FromChar),
                Err(e) => self.fail(e),
            },
            Intrinsic::Index => self.run_index(),
            Intrinsic::Print => self.run_print(),
            Intrinsic::Readline => self.ask(Request::ReadLine, Pending::Line),
            Intrinsic::Assert => self.run_assert(),
            Intrinsic::Eval => Status::Running,
        }
    }

    /// Runs the function or operation that the pointer on top of the stack points to.
    fn eval(&mut self) -> (r: Status)
        requires
            program_wf(old(self).program@),
        ensures
            final(self).program == old(self).program,
            (final(self)@, r@) == old(self)@.evaluated(old(self).program),
    {
        loop
            invariant
                self.program == old(self).program,
                program_wf(self.program@),
                self@.evaluated(self.program) == old(self)@.evaluated(old(self).program),
            decreases self.stack@.len(),
        {
            let ghost before = self@;
            let ghost height = self.stack@.len();
            assert(height == values(self.stack@).len());
            let (namespace, name) = match take(&mut self.stack) {
                Ok(Value::Address(namespace, name)) => (namespace, name),
                Ok(_) => {
                    return self.fail_with("Expected function pointer on top of stack");
                },
                Err(e) => {
                    return self.fail(e);
                },
            };
            assert(self@ == before.popped(1));
            assert(self.stack@.len() == values(self.stack@).len());
            match get_intrinsic(name.as_str()) {
                Some(Intrinsic::Eval) => {},
                Some(i) => {
                    return self.run_simple(i);
                },
                None => {
                    return self.call(namespace, name.as_str());
                },
            }
        }
    }

    /// Runs a built-in operation.
    fn run_intrinsic(&mut self, i: Intrinsic) -> (r: Status)
        requires
            program_wf(old(self).program@),
        ensures
            final(self).program == old(self).program,
            (final(self)@, r@) == old(self)@.built_in(old(self).program, i),
    {
        match i {
            Intrinsic::Eval => self.eval(),
            other => self.run_simple(other),
        }
    }

    /// Runs what `name` stands for in namespace `current_namespace`: a built-in
    /// operation, a function of the program, or a capture variable.
    pub fn evaluate_name(&mut self, current_namespace: usize, name: &str) -> (r: Status)
        requires
            program_wf(old(self).program@),
        ensures
            final(self).program == old(self).program,
            (final(self)@, r@) == old(self)@.named(old(self).program, current_namespace, name@),
    {
        match get_intrinsic(name) {
            Some(i) => {
                return self.run_intrinsic(i);
            },
            None => {},
        }
        self.call(current_namespace, name)
    }

    /// The end of `substring`.
    fn cut_out(&mut self, start: usize, end: usize) -> (r: Status)
        ensures
            final(self).program == old(self).program,
            (final(self)@, r@) == old(self)@.cut_out(start, end),
    {
        match take_string(&mut self.stack) {
            Ok(whole) => {
                proof {
                    whole.view_is_chars();
                }
                let len = whole.len();
                let start = if start < len {
                    start
                } else {
                    len
                };
                let end = if end < len {
                    end
                } else {
                    len
                };
                let end = if end < start {
                    start
                } else {
                    end
                };
                let part = whole.substring(start, end);
                proof {
                    part.view_is_chars();
                }
                push(&mut self.stack, Value::String(part));
                self.done()
            },
            Err(e) => self.fail(e),
        }
    }

    /// Goes on with the operation that waited for the host's answer.
    pub fn resume(&mut self, reply: Reply) -> (r: Status)
        ensures
            final(self).program == old(self).program,
            (final(self)@, r@) == old(self)@.answered(reply@),
    {
        let mut pending = Pending::Nothing;
        core::mem::swap(&mut self.pending, &mut pending);
        match (pending, reply) {
            (Pending::Nothing, _) => self.fail_with("No request is waiting for an answer"),
            (_, Reply::Failed(message)) => self.fail(message),
            (Pending::Value, Reply::Number(n)) => {
                push(&mut self.stack, Value::Number(n));
                self.done()
            },
            (Pending::Value, Reply::Bool(b)) => {
                push(&mut self.stack, Value::Bool(b));
                self.done()
            },
            (Pending::Converted(_), Reply::Number(n)) => {
                push(&mut self.stack, Value::Number(n));
                self.done()
            },
            (Pending::Converted(message), Reply::Index(None)) => self.fail(message),
            (Pending::SubstringEnd, Reply::Index(Some(end))) => match take_number(
                &mut self.stack,
            ) {
                Ok(start) => self.ask(Request::ToIndex(start), Pending::SubstringStart(end)),
                Err(e) => self.fail(e),
            },
            (Pending::SubstringEnd, Reply::Index(None)) => self.fail_with(
                "Invalid substring end index",
            ),
            (Pending::SubstringStart(end), Reply::Index(Some(start))) => self.cut_out(start, end),
            (Pending::SubstringStart(_), Reply::Index(None)) => self.fail_with(
                "Invalid substring start index",
            ),
            (Pending::FromChar, Reply::Index(Some(code))) => {
                let c = if code <= 0x10FFFF {
                    char::from_u32(code as u32)
                } else {
                    None
                };
                match c {
                    Some(c) => {
                        push(&mut self.stack, Value::String(CharString::from_char(c)));
                        self.done()
                    },
                    None => self.fail_with("from_char only works with valid unicode codepoints"),
                }
            },
            (Pending::FromChar, Reply::Index(None)) => self.fail_with(
                "from_char only works with valid unicode codepoints",
            ),
            (Pending::JoinFirst(second), Reply::Text(text)) => {
                let first = CharString::from_str(text.as_str());
                self.join_second(first, second)
            },
            (Pending::JoinSecond(first), Reply::Text(text)) => {
                let second = CharString::from_str(text.as_str());
                push(&mut self.stack, Value::String(first.joined(&second)));
                self.done()
            },
            (Pending::PrintText, Reply::Text(text)) => self.ask(
                Request::Print(text),
                Pending::Printed,
            ),
            (Pending::Printed, Reply::Done) => self.done(),
            (Pending::Line, Reply::Line(Some(line))) => {
                push2(
                    &mut self.stack,
                    Value::String(CharString::from_str(line.as_str())),
                    Value::Bool(true),
                );
                self.done()
            },
            (Pending::Line, Reply::Line(None)) => {
                proof {
                    reveal_strlit("");
                }
                let empty = CharString::from_str("");
                assert(empty@ =~= Seq::<char>::empty());
                push2(&mut self.stack, Value::String(empty), Value::Bool(false));
                self.done()
            },
            _ => self.fail_with("The answer does not fit the request"),
        }
    }

    /// Runs one term.
    fn evaluate_term(&mut self, term: &'a Term) -> (r: Status)
        requires
            program_wf(old(self).program@),
        ensures
            final(self).program == old(self).program,
            (final(self)@, r@) == old(self)@.term_run(old(self).program, term),
    {
        match term {
            Term::String(l) => {
                push(&mut self.stack, Value::String(CharString::from_str(l.as_str())));
                Status::Running
            },
            Term::Number(l) => {
                push(&mut self.stack, Value::Number(*l));
                Status::Running
            },
            Term::Bool(l) => {
                push(&mut self.stack, Value::Bool(*l));
                Status::Running
            },
            Term::Name(name, range) => {
                let current_namespace = self.get_current_namespace();
                self.backtrace.push(
                    BacktraceItem { namespace: current_namespace, name: name.clone(), range: *range },
                );
                self.evaluate_name(current_namespace, name.as_str())
            },
            Term::Capture(name, _) => match take(&mut self.stack) {
                Ok(v) => {
                    self.bind(name.clone(), v);
                    Status::Running
                },
                Err(e) => self.fail(e),
            },
            Term::Branch(b) => {
                self.start_arm(b, 0);
                Status::Running
            },
            Term::Loop(l) => {
                self.start_loop(l);
                Status::Running
            },
            Term::Address(s) => {
                let current_namespace = self.get_current_namespace();
                push(&mut self.stack, Value::Address(current_namespace, s.clone()));
                Status::Running
            },
        }
    }

    /// Runs one step: the next term of the innermost block, or what follows that
    /// block when it has no term left. A machine that failed or that has nothing left to
    /// run stays as it is; one that waits for its host fails.
    pub fn step(&mut self) -> (r: Status)
        requires
            program_wf(old(self).program@),
        ensures
            final(self).program == old(self).program,
            (final(self)@, r@) == old(self)@.stepped(old(self).program),
    {
        if self.failure.is_some() {
            return Status::Failed;
        }
        match &self.pending {
            Pending::Nothing => {},
            _ => {
                return self.fail_with("The host has not answered the last request");
            },
        }
        let mut frame = match self.frames.pop() {
            Some(f) => f,
            None => {
                return Status::Finished;
            },
        };
        if frame.next < frame.block.terms.len() {
            let term = &frame.block.terms[frame.next];
            frame.next = frame.next + 1;
            self.frames.push(frame);
            self.evaluate_term(term)
        } else {
            self.unbind(frame.scope);
            self.leave(frame.after)
        }
    }

    /// Runs steps until the run ends, fails or needs its host, but no more than `limit`.
    pub fn run(&mut self, limit: usize) -> (r: Status)
        requires
            program_wf(old(self).program@),
        ensures
            final(self).program == old(self).program,
            (final(self)@, r@) == old(self)@.run_for(old(self).program, limit as nat),
    {
        let mut left = limit;
        while left > 0
            invariant
                self.program == old(self).program,
                program_wf(self.program@),
                self@.run_for(self.program, left as nat) == old(self)@.run_for(
                    old(self).program,
                    limit as nat,
                ),
            decreases left,
        {
            match self.step() {
                Status::Running => {},
                other => {
                    return other;
                },
            }
            left -= 1;
        }
        Status::Running
    }
}

} // verus!
