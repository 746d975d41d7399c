//! A text buffer that indents the lines written to it.
use vstd::prelude::*;
use crate::text::{push_all, push_str, string_of};

verus! {

/// Text that is built line by line under a running indentation.
#[derive(Default)]
pub struct CodegenTarget {
    indentation: Vec<char>,
    output: Vec<char>,
}

/// The indentation after one step back: two characters shorter, never shorter than empty.
pub open spec fn outdented(indent: Seq<char>) -> Seq<char> {
    if indent.len() >= 2 {
        indent.take(indent.len() - 2)
    } else {
        Seq::empty()
    }
}

impl CodegenTarget {
    /// The indentation that the next line gets.
    pub closed spec fn indent(self) -> Seq<char> {
        self.indentation@
    }

    /// The text written so far.
    pub closed spec fn text(self) -> Seq<char> {
        self.output@
    }

    /// An empty buffer without indentation.
    pub fn new() -> (r: CodegenTarget)
        ensures
            r.indent() == Seq::<char>::empty(),
            r.text() == Seq::<char>::empty(),
    {
        CodegenTarget { indentation: Vec::new(), output: Vec::new() }
    }

    /// Writes the indentation, the text and a line end.
    pub fn write_line(&mut self, v: &str)
        ensures
            final(self).indent() == old(self).indent(),
            final(self).text() == old(self).text() + old(self).indent() + v@ + seq!['\n'],
    {
        push_all(&mut self.output, &self.indentation);
        push_str(&mut self.output, v);
        self.output.push('\n');
    }

    /// Writes the indentation, the characters and a line end.
    pub fn write_chars(&mut self, v: &Vec<char>)
        ensures
            final(self).indent() == old(self).indent(),
            final(self).text() == old(self).text() + old(self).indent() + v@ + seq!['\n'],
    {
        push_all(&mut self.output, &self.indentation);
        push_all(&mut self.output, v);
        self.output.push('\n');
    }

    /// Appends text as it is.
    pub fn write_raw(&mut self, v: &str)
        ensures
            final(self).indent() == old(self).indent(),
            final(self).text() == old(self).text() + v@,
    {
        push_str(&mut self.output, v);
    }

    /// Indents the following lines by two more spaces.
    pub fn increase_indent(&mut self)
        ensures
            final(self).indent() == old(self).indent() + seq![' ', ' '],
            final(self).text() == old(self).text(),
    {
        self.indentation.push(' ');
        self.indentation.push(' ');
        assert(self.indentation@ =~= old(self).indentation@ + seq![' ', ' ']);
    }

    /// Indents the following lines by two spaces less.
    pub fn decrease_indent(&mut self)
        ensures
            final(self).indent() == outdented(old(self).indent()),
            final(self).text() == old(self).text(),
    {
        self.indentation.pop();
        self.indentation.pop();
        assert(self.indentation@ =~= outdented(old(self).indentation@));
    }

    /// The text that was written.
    pub fn into_string(self) -> (r: String)
        ensures
            r@ == self.text(),
    {
        string_of(&self.output)
    }
}

} // verus!
