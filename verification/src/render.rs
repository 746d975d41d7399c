//! How a failure is shown to the user: a syntax error with the lines it lies in and a
//! hint, a failed run with the trail of calls that led to it.
use vstd::prelude::*;
use crate::analyze::{outcome_of, AnalysisError, BlockAnalysisResult, Failure, Outcome};
use crate::interpreter::BacktraceItem;
use crate::lang::arity_text::arity_text;
use crate::lang::source_lines::{line_text, lines_between};
use crate::lang::source_location::{SourceLocation, SourceRange};
use crate::parse_error::ErrorDetails;
use crate::text::{
    byte_length, chars_of, decimal, decimal_chars, digit_of, push_all, push_str, string_of,
};

verus! {

/// The character `c`, `n` times.
pub open spec fn repeated(c: char, n: nat) -> Seq<char> {
    Seq::new(n, |i: int| c)
}

/// The text with blanks behind it up to `width` characters; a longer text stays whole.
pub open spec fn left_aligned(text: Seq<char>, width: nat) -> Seq<char> {
    if text.len() < width {
        text + repeated(' ', (width - text.len()) as nat)
    } else {
        text
    }
}

/// The text with blanks in front of it up to `width` characters; a longer text stays
/// whole.
pub open spec fn right_aligned(text: Seq<char>, width: nat) -> Seq<char> {
    if text.len() < width {
        repeated(' ', (width - text.len()) as nat) + text
    } else {
        text
    }
}

/// The text of a position: its line and its column, both counted from one.
pub open spec fn location_text(l: SourceLocation) -> Seq<char> {
    decimal(l.line as nat + 1) + seq![':'] + decimal(l.column as nat + 1)
}

fn push_repeated(out: &mut Vec<char>, c: char, n: usize)
    ensures
        final(out)@ == old(out)@ + repeated(c, n as nat),
{
    let mut i: usize = 0;
    assert(out@ =~= old(out)@ + repeated(c, 0));
    while i < n
        invariant
            i <= n,
            out@ == old(out)@ + repeated(c, i as nat),
        decreases n - i,
    {
        out.push(c);
        i += 1;
        assert(out@ =~= old(out)@ + repeated(c, i as nat));
    }
}

fn push_left_aligned(out: &mut Vec<char>, text: &Vec<char>, width: usize)
    ensures
        final(out)@ == old(out)@ + left_aligned(text@, width as nat),
{
    push_all(out, text);
    if text.len() < width {
        push_repeated(out, ' ', width - text.len());
    }
    assert(out@ =~= old(out)@ + left_aligned(text@, width as nat));
}

fn push_right_aligned(out: &mut Vec<char>, text: &Vec<char>, width: usize)
    ensures
        final(out)@ == old(out)@ + right_aligned(text@, width as nat),
{
    if text.len() < width {
        push_repeated(out, ' ', width - text.len());
    }
    push_all(out, text);
    assert(out@ =~= old(out)@ + right_aligned(text@, width as nat));
}

/// The decimal numeral of the number after `n`.
fn successor_chars(n: usize) -> (r: Vec<char>)
    ensures
        r@ == decimal(n as nat + 1),
{
    if n < 9 {
        decimal_chars(n + 1)
    } else if n % 10 == 9 {
        let mut out = decimal_chars(n / 10 + 1);
        out.push('0');
        assert((n as nat + 1) / 10 == n as nat / 10 + 1 && (n as nat + 1) % 10 == 0);
        out
    } else {
        let mut out = decimal_chars(n / 10);
        out.push(digit_of(n % 10 + 1));
        assert((n as nat + 1) / 10 == n as nat / 10 && (n as nat + 1) % 10 == n as nat % 10 + 1);
        out
    }
}

/// The text of a position.
pub fn show_location(l: &SourceLocation) -> (r: String)
    ensures
        r@ == location_text(*l),
{
    let mut out = successor_chars(l.line);
    out.push(':');
    let column = successor_chars(l.column);
    push_all(&mut out, &column);
    string_of(&out)
}

/// The widest of the first `k` names of a trail, in bytes.
pub open spec fn widest(trail: Seq<BacktraceItem>, k: nat) -> usize
    decreases k,
{
    if k == 0 || k > trail.len() {
        0
    } else if widest(trail, (k - 1) as nat) < byte_length(trail[k - 1].name@) {
        byte_length(trail[k - 1].name@)
    } else {
        widest(trail, (k - 1) as nat)
    }
}

/// The width of the column of names: that of the widest name, but no more than 24, and
/// four more.
pub open spec fn name_column(trail: Seq<BacktraceItem>) -> nat {
    if widest(trail, trail.len()) < 24 {
        (widest(trail, trail.len()) + 4) as nat
    } else {
        28
    }
}

/// The path shown for a namespace: the one given for it, or `input` when none is given.
pub open spec fn shown_path(paths: Seq<Seq<char>>, namespace: usize) -> Seq<char> {
    if namespace < paths.len() {
        paths[namespace as int]
    } else {
        "input"@
    }
}

/// The line for one entry of the trail.
pub open spec fn entry_line(
    e: BacktraceItem,
    innermost: bool,
    width: nat,
    paths: Seq<Seq<char>>,
) -> Seq<char> {
    (if innermost {
        "│\n└─ at:  "@
    } else {
        "        "@
    }) + left_aligned(e.name@, width) + seq![' '] + shown_path(paths, e.namespace) + seq![':']
        + location_text(e.range.start) + seq!['\n']
}

/// The lines for the `k` innermost entries of the trail, the innermost first.
pub open spec fn entry_lines(
    trail: Seq<BacktraceItem>,
    k: nat,
    width: nat,
    paths: Seq<Seq<char>>,
) -> Seq<char>
    decreases k,
{
    if k == 0 || k > trail.len() {
        Seq::empty()
    } else {
        entry_lines(trail, (k - 1) as nat, width, paths) + entry_line(
            trail[trail.len() - k],
            k == 1,
            width,
            paths,
        )
    }
}

/// How a failed run is shown: the message alone when there is no trail; else a
/// heading, the message, and a line for each call of the trail, the innermost first,
/// with the name, the path of the file and the position.
pub open spec fn backtrace_text(
    message: Seq<char>,
    trail: Seq<BacktraceItem>,
    paths: Seq<Seq<char>>,
) -> Seq<char> {
    if trail.len() == 0 {
        message
    } else {
        "\n╒═════════════════════════════ Runtime Error \n│\n│  "@ + message + seq!['\n']
            + entry_lines(trail, trail.len(), name_column(trail), paths)
    }
}

/// The width of the column of names.
fn column_width(trail: &Vec<BacktraceItem>) -> (r: usize)
    ensures
        r == name_column(trail@),
{
    let mut widest_so_far: usize = 0;
    let mut i: usize = 0;
    while i < trail.len()
        invariant
            i <= trail.len(),
            widest_so_far == widest(trail@, i as nat),
        decreases trail.len() - i,
    {
        let n = trail[i].name.as_str().len();
        if widest_so_far < n {
            widest_so_far = n;
        }
        i += 1;
    }
    if widest_so_far < 24 {
        widest_so_far + 4
    } else {
        28
    }
}

fn push_entry_line(
    out: &mut Vec<char>,
    item: &BacktraceItem,
    innermost: bool,
    width: usize,
    paths: &Vec<String>,
)
    ensures
        final(out)@ == old(out)@ + entry_line(
            *item,
            innermost,
            width as nat,
            paths@.map_values(|p: String| p@),
        ),
{
    let ghost shown = paths@.map_values(|p: String| p@);
    let mut line: Vec<char> = Vec::new();
    if innermost {
        push_str(&mut line, "│\n└─ at:  ");
    } else {
        push_str(&mut line, "        ");
    }
    let name = chars_of(item.name.as_str());
    push_left_aligned(&mut line, &name, width);
    line.push(' ');
    if item.namespace < paths.len() {
        assert(shown[item.namespace as int] == paths@[item.namespace as int]@);
        push_str(&mut line, paths[item.namespace].as_str());
    } else {
        push_str(&mut line, "input");
    }
    line.push(':');
    push_str(&mut line, show_location(&item.range.start).as_str());
    line.push('\n');
    assert(line@ =~= entry_line(*item, innermost, width as nat, shown));
    push_all(out, &line);
}

/// Shows a failed run. `paths` holds, for each namespace, the path to show for it.
pub fn render_backtrace(message: &str, trail: &Vec<BacktraceItem>, paths: &Vec<String>) -> (r:
    String)
    ensures
        r@ == backtrace_text(message@, trail@, paths@.map_values(|p: String| p@)),
{
    if trail.len() == 0 {
        return string_of(&chars_of(message));
    }
    let ghost shown = paths@.map_values(|p: String| p@);
    let width = column_width(trail);
    let mut out: Vec<char> = Vec::new();
    push_str(&mut out, "\n╒═════════════════════════════ Runtime Error \n│\n│  ");
    push_str(&mut out, message);
    out.push('\n');
    let ghost head = out@;
    let mut k: usize = 0;
    assert(out@ =~= head + entry_lines(trail@, 0, width as nat, shown));
    while k < trail.len()
        invariant
            k <= trail.len(),
            shown == paths@.map_values(|p: String| p@),
            out@ == head + entry_lines(trail@, k as nat, width as nat, shown),
        decreases trail.len() - k,
    {
        let ghost before = out@;
        push_entry_line(&mut out, &trail[trail.len() - 1 - k], k == 0, width, paths);
        k += 1;
        assert(out@ =~= head + entry_lines(trail@, k as nat, width as nat, shown));
    }
    string_of(&out)
}

/// The rule under the lines of a syntax error: it reaches to the column where the
/// error ends, and closes with `corner`.
pub open spec fn underline(column: usize, corner: char) -> Seq<char> {
    "└─"@ + repeated('─', 6) + "───"@ + repeated('─', column as nat) + seq![corner]
}

/// A line of the text with its number, counted from one, in front of it.
pub open spec fn numbered_line(lead: Seq<char>, number: usize, line: Seq<char>) -> Seq<char> {
    lead + right_aligned(decimal(number as nat + 1), 6) + " │ "@ + line + seq!['\n']
}

/// The first `k` of the lines, each with its number.
pub open spec fn listing(lines: Seq<(usize, Seq<char>)>, k: nat) -> Seq<char>
    decreases k,
{
    if k == 0 || k > lines.len() {
        Seq::empty()
    } else {
        listing(lines, (k - 1) as nat) + numbered_line("│ "@, lines[k - 1].0, lines[k - 1].1)
    }
}

/// The lines of the text that a syntax error lies in, with the rule under them: for
/// an error within one line, the rule and then the line, or nothing if the text has no
/// such line; else the lines and then the rule.
pub open spec fn excerpt(range: SourceRange, source: Seq<char>) -> Seq<char> {
    if range.start.line == range.end.line {
        match line_text(source, range.start.line as nat) {
            Some(line) => underline(range.end.column, '┐') + seq!['\n'] + numbered_line(
                "  "@,
                range.start.line,
                line,
            ) + seq!['\n'],
            None => Seq::empty(),
        }
    } else {
        let lines = lines_between(
            source,
            range.start.line as nat,
            (range.end.line - range.start.line + 1) as nat,
        );
        listing(lines, lines.len()) + underline(range.end.column, '┘') + seq!['\n', '\n']
    }
}

/// How a syntax error is shown: a heading, the message, the file and the position
/// where the error ends if the text came from a file, the lines the error lies in, and
/// the hint if there is one.
pub open spec fn parse_error_text(
    file: Option<Seq<char>>,
    message: Seq<char>,
    range: SourceRange,
    info: Option<Seq<char>>,
    source: Seq<char>,
) -> Seq<char> {
    "\n╒═════════════════════════════ Syntax Error \n"@ + "│\n│   "@ + message + "\n│\n"@ + (match file {
        Some(f) => "@ "@ + f + seq![':'] + location_text(range.end) + "\n│\n"@,
        None => Seq::empty(),
    }) + excerpt(range, source) + (match info {
        Some(i) => "    INFO: "@ + i + seq!['\n'],
        None => Seq::empty(),
    })
}

fn push_underline(out: &mut Vec<char>, column: usize, corner: char)
    ensures
        final(out)@ == old(out)@ + underline(column, corner),
{
    push_str(out, "└─");
    push_repeated(out, '─', 6);
    push_str(out, "───");
    push_repeated(out, '─', column);
    out.push(corner);
    assert(out@ =~= old(out)@ + underline(column, corner));
}

fn push_numbered_line(out: &mut Vec<char>, lead: &str, number: usize, line: &str)
    ensures
        final(out)@ == old(out)@ + numbered_line(lead@, number, line@),
{
    push_str(out, lead);
    let digits = successor_chars(number);
    push_right_aligned(out, &digits, 6);
    push_str(out, " │ ");
    push_str(out, line);
    out.push('\n');
    assert(out@ =~= old(out)@ + numbered_line(lead@, number, line@));
}

fn push_excerpt(out: &mut Vec<char>, range: &SourceRange, source: &str)
    requires
        range.start.line <= range.end.line,
    ensures
        final(out)@ == old(out)@ + excerpt(*range, source@),
{
    if range.start.line == range.end.line {
        match range.start.extract(source) {
            Some(line) => {
                push_underline(out, range.end.column, '┐');
                out.push('\n');
                push_numbered_line(out, "  ", range.start.line, line.as_str());
                out.push('\n');
                assert(out@ =~= old(out)@ + excerpt(*range, source@));
            },
            None => {
                assert(out@ =~= old(out)@ + excerpt(*range, source@));
            },
        }
    } else {
        let lines = range.extract(source);
        let ghost model = lines@.map_values(|l: (usize, String)| (l.0, l.1@));
        let ghost head = out@;
        let mut k: usize = 0;
        assert(out@ =~= head + listing(model, 0));
        while k < lines.len()
            invariant
                k <= lines.len(),
                model == lines@.map_values(|l: (usize, String)| (l.0, l.1@)),
                out@ == head + listing(model, k as nat),
            decreases lines.len() - k,
        {
            let ghost before = out@;
            assert(model[k as int] == (lines@[k as int].0, lines@[k as int].1@));
            push_numbered_line(out, "│ ", lines[k].0, lines[k].1.as_str());
            k += 1;
            assert(out@ =~= head + listing(model, k as nat));
        }
        let ghost listed = out@;
        push_underline(out, range.end.column, '┘');
        out.push('\n');
        out.push('\n');
        assert(out@ =~= listed + underline(range.end.column, '┘') + seq!['\n', '\n']);
        assert(out@ =~= old(out)@ + excerpt(*range, source@));
    }
}

/// Shows a syntax error in `source`. `file` is the path to show for the file the text
/// came from, if it came from one.
pub fn render_parse_error(file: Option<&str>, details: &ErrorDetails, source: &str) -> (r: String)
    requires
        details.range.start.line <= details.range.end.line,
    ensures
        r@ == parse_error_text(
            match file {
                Some(f) => Some(f@),
                None => None,
            },
            details.message@,
            details.range,
            match details.info {
                Some(i) => Some(i@),
                None => None,
            },
            source@,
        ),
{
    let mut out: Vec<char> = Vec::new();
    push_str(&mut out, "\n╒═════════════════════════════ Syntax Error \n");
    push_str(&mut out, "│\n│   ");
    push_str(&mut out, details.message.as_str());
    push_str(&mut out, "\n│\n");
    match file {
        Some(f) => {
            push_str(&mut out, "@ ");
            push_str(&mut out, f);
            out.push(':');
            push_str(&mut out, show_location(&details.range.end).as_str());
            push_str(&mut out, "\n│\n");
        },
        None => {},
    }
    let ghost head = out@;
    push_excerpt(&mut out, &details.range, source);
    let ghost body = out@;
    match &details.info {
        Some(i) => {
            push_str(&mut out, "    INFO: ");
            push_str(&mut out, i.as_str());
            out.push('\n');
            assert(out@ =~= body + ("    INFO: "@ + i@ + seq!['\n']));
        },
        None => {
            assert(out@ =~= body + Seq::<char>::empty());
        },
    }
    string_of(&out)
}

/// The names, each with a blank in front of it.
pub open spec fn spaced(names: Seq<Seq<char>>, k: nat) -> Seq<char>
    decreases k,
{
    if k == 0 || k > names.len() {
        Seq::empty()
    } else {
        spaced(names, (k - 1) as nat) + seq![' '] + names[k - 1]
    }
}

/// What is reported of the outcome of an analysis: the effect in its text form, or
/// why there is none; `not resolved` also for a function that has no outcome yet.
pub open spec fn outcome_text(entry: Option<Outcome>) -> Seq<char> {
    match entry {
        Some(Ok(a)) => arity_text(a),
        Some(Err(Failure::IndefiniteSize)) => "unbounded"@,
        Some(Err(Failure::Pending)) => "not resolved"@,
        Some(Err(Failure::IncompatibleTypes)) => "incompatible types"@,
        Some(Err(Failure::MissingDeclaration(names))) => "missing declarations:"@ + spaced(
            names,
            names.len(),
        ),
        None => "not resolved"@,
    }
}

fn spaced_names(names: &Vec<String>) -> (r: Vec<char>)
    ensures
        r@ == spaced(names@.map_values(|n: String| n@), names.len() as nat),
{
    let ghost model = names@.map_values(|n: String| n@);
    let mut out: Vec<char> = Vec::new();
    let mut k: usize = 0;
    while k < names.len()
        invariant
            k <= names.len(),
            model == names@.map_values(|n: String| n@),
            out@ == spaced(model, k as nat),
        decreases names.len() - k,
    {
        let ghost before = out@;
        assert(model[k as int] == names@[k as int]@);
        out.push(' ');
        push_str(&mut out, names[k].as_str());
        k += 1;
        assert(out@ =~= before + seq![' '] + model[k - 1]);
    }
    out
}

/// The line that reports the outcome of an analysis under a label.
pub fn report_arity(label: &str, result: Option<&BlockAnalysisResult>) -> (r: String)
    ensures
        r@ == label@ + ": "@ + outcome_text(
            match result {
                Some(x) => Some(outcome_of(*x)),
                None => None,
            },
        ),
{
    let mut out = chars_of(label);
    push_str(&mut out, ": ");
    match result {
        Some(Ok(arity)) => push_str(&mut out, arity.stringify().as_str()),
        Some(Err(AnalysisError::IndefiniteSize)) => push_str(&mut out, "unbounded"),
        Some(Err(AnalysisError::Pending)) => push_str(&mut out, "not resolved"),
        Some(Err(AnalysisError::IncompatibleTypes)) => push_str(&mut out, "incompatible types"),
        Some(Err(AnalysisError::MissingDeclaration(names))) => {
            push_str(&mut out, "missing declarations:");
            let listed = spaced_names(names);
            push_all(&mut out, &listed);
        },
        None => push_str(&mut out, "not resolved"),
    }
    string_of(&out)
}

} // verus!
