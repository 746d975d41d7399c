//! The lines of a source text, for showing where something was written.
use vstd::prelude::*;
use crate::lang::source_location::{SourceLocation, SourceRange};
use crate::text::{chars_of, string_of};

verus! {

/// The offset of the first line feed at or after `from`, or the length of the text.
pub open spec fn line_end(text: Seq<char>, from: int) -> int
    decreases text.len() - from,
{
    if from < 0 || from >= text.len() {
        text.len() as int
    } else if text[from] == '\n' {
        from
    } else {
        line_end(text, from + 1)
    }
}

/// The offset at which line `k` starts, if the text has that many lines. A line feed
/// at the very end of the text starts no further line.
pub open spec fn line_start(text: Seq<char>, k: nat) -> Option<int>
    decreases k,
{
    if k == 0 {
        if text.len() == 0 {
            None
        } else {
            Some(0)
        }
    } else {
        match line_start(text, (k - 1) as nat) {
            None => None,
            Some(s) => if line_end(text, s) + 1 < text.len() {
                Some(line_end(text, s) + 1)
            } else {
                None
            },
        }
    }
}

/// Line `k` of the text, without its line feed and without a carriage return in front
/// of that.
pub open spec fn line_text(text: Seq<char>, k: nat) -> Option<Seq<char>> {
    match line_start(text, k) {
        None => None,
        Some(s) => {
            let e = line_end(text, s);
            if e < text.len() && s < e && text[e - 1] == '\r' {
                Some(text.subrange(s, e - 1))
            } else {
                Some(text.subrange(s, e))
            }
        },
    }
}

/// Up to `count` lines of the text from line `from` on, each with its number.
pub open spec fn lines_between(text: Seq<char>, from: nat, count: nat) -> Seq<(usize, Seq<char>)>
    decreases count,
{
    if count == 0 {
        Seq::empty()
    } else {
        match line_text(text, from) {
            None => Seq::empty(),
            Some(t) => seq![(from as usize, t)] + lines_between(
                text,
                from + 1,
                (count - 1) as nat,
            ),
        }
    }
}

/// The end of a line lies between its start and the end of the text.
pub proof fn line_end_bounds(text: Seq<char>, from: int)
    requires
        0 <= from <= text.len(),
    ensures
        from <= line_end(text, from) <= text.len(),
    decreases text.len() - from,
{
    if from < text.len() && text[from] != '\n' {
        line_end_bounds(text, from + 1);
    }
}

/// A line starts inside the text.
pub proof fn line_start_bounds(text: Seq<char>, k: nat)
    ensures
        line_start(text, k) is Some ==> 0 <= line_start(text, k)->0 < text.len(),
    decreases k,
{
    if k > 0 {
        line_start_bounds(text, (k - 1) as nat);
        match line_start(text, (k - 1) as nat) {
            Some(s) => line_end_bounds(text, s),
            None => {},
        }
    }
}

/// After a line that the text does not have, it has no line.
pub proof fn no_line_after_the_last(text: Seq<char>, k: nat, j: nat)
    requires
        line_start(text, k) is None,
        k <= j,
    ensures
        line_start(text, j) is None,
    decreases j,
{
    if j > k {
        no_line_after_the_last(text, k, (j - 1) as nat);
    }
}

fn end_of_line(chars: &Vec<char>, from: usize) -> (r: usize)
    requires
        from <= chars.len(),
    ensures
        r == line_end(chars@, from as int),
        from <= r <= chars.len(),
{
    let mut i = from;
    while i < chars.len() && chars[i] != '\n'
        invariant
            from <= i <= chars.len(),
            line_end(chars@, from as int) == line_end(chars@, i as int),
        decreases chars.len() - i,
    {
        i += 1;
    }
    i
}

fn nth_line(chars: &Vec<char>, line: usize) -> (r: Option<Vec<char>>)
    ensures
        match line_text(chars@, line as nat) {
            Some(t) => r is Some && r->0@ == t,
            None => r is None,
        },
{
    if chars.len() == 0 {
        proof {
            no_line_after_the_last(chars@, 0, line as nat);
        }
        return None;
    }
    let mut s: usize = 0;
    let mut k: usize = 0;
    loop
        invariant
            k <= line,
            s < chars.len(),
            line_start(chars@, k as nat) == Some(s as int),
        decreases line - k,
    {
        let e = end_of_line(chars, s);
        if k == line {
            let stop = if e < chars.len() && s < e && chars[e - 1] == '\r' {
                e - 1
            } else {
                e
            };
            let mut out: Vec<char> = Vec::new();
            let mut i = s;
            while i < stop
                invariant
                    s <= i <= stop,
                    stop <= chars.len(),
                    out@ == chars@.subrange(s as int, i as int),
                decreases stop - i,
            {
                out.push(chars[i]);
                i += 1;
                assert(out@ =~= chars@.subrange(s as int, i as int));
            }
            return Some(out);
        }
        if chars.len() - e > 1 {
            s = e + 1;
            k += 1;
        } else {
            proof {
                assert(line_start(chars@, (k + 1) as nat) is None);
                no_line_after_the_last(chars@, (k + 1) as nat, line as nat);
            }
            return None;
        }
    }
}

impl SourceLocation {
    /// The line of `string` that the position lies in, if the text has that line.
    pub fn extract(&self, string: &str) -> (r: Option<String>)
        ensures
            match line_text(string@, self.line as nat) {
                Some(t) => r is Some && r->0@ == t,
                None => r is None,
            },
    {
        let chars = chars_of(string);
        match nth_line(&chars, self.line) {
            Some(l) => Some(string_of(&l)),
            None => None,
        }
    }
}

impl SourceRange {
    /// The lines of `string` that the range touches, each with its number.
    pub fn extract(&self, string: &str) -> (r: Vec<(usize, String)>)
        requires
            self.start.line <= self.end.line,
        ensures
            r@.map_values(|l: (usize, String)| (l.0, l.1@)) == lines_between(
                string@,
                self.start.line as nat,
                (self.end.line - self.start.line + 1) as nat,
            ),
    {
        let chars = chars_of(string);
        let ghost text = string@;
        let ghost first = self.start.line as nat;
        let ghost total = (self.end.line - self.start.line + 1) as nat;
        let mut out: Vec<(usize, String)> = Vec::new();
        let mut k: usize = self.start.line;
        assert(out@.map_values(|l: (usize, String)| (l.0, l.1@)) =~= Seq::empty());
        loop
            invariant
                self.start.line <= k <= self.end.line,
                chars@ == text,
                text == string@,
                first == self.start.line,
                total == self.end.line - self.start.line + 1,
                lines_between(text, first, total) == out@.map_values(
                    |l: (usize, String)| (l.0, l.1@),
                ) + lines_between(text, k as nat, (self.end.line - k + 1) as nat),
            decreases self.end.line - k,
        {
            let ghost before = out@.map_values(|l: (usize, String)| (l.0, l.1@));
            match nth_line(&chars, k) {
                None => {
                    assert(before + Seq::<(usize, Seq<char>)>::empty() =~= before);
                    return out;
                },
                Some(l) => {
                    let ghost t = l@;
                    out.push((k, string_of(&l)));
                    assert(out@.map_values(|l: (usize, String)| (l.0, l.1@)) =~= before.push(
                        (k, t),
                    ));
                    if k == self.end.line {
                        assert(lines_between(text, (k + 1) as nat, 0) =~= Seq::empty());
                        assert(before + (seq![(k, t)] + Seq::<(usize, Seq<char>)>::empty())
                            =~= before.push((k, t)));
                        return out;
                    }
                    assert(before + (seq![(k, t)] + lines_between(
                        text,
                        (k + 1) as nat,
                        (self.end.line - k) as nat,
                    )) =~= before.push((k, t)) + lines_between(
                        text,
                        (k + 1) as nat,
                        (self.end.line - k) as nat,
                    ));
                    k += 1;
                },
            }
        }
    }
}

} // verus!
