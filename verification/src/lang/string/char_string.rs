//! A string held as a vector of characters.
use vstd::prelude::*;
use crate::lang::string::api::{occurs_at, StringApi};
use crate::text::{chars_of, string_of};

verus! {

/// A string held as a vector of characters, so that length and position count characters.
#[derive(Debug, PartialEq)]
pub struct CharString {
    source: Vec<char>,
}

impl View for CharString {
    type V = Seq<char>;

    closed spec fn view(&self) -> Seq<char> {
        self.source@
    }
}

impl StringApi for CharString {
    closed spec fn chars(&self) -> Seq<char> {
        self.source@
    }

    fn len(&self) -> (r: usize) {
        self.source.len()
    }

    fn find(&self, other: &CharString) -> (r: Option<usize>) {
        let n = self.source.len();
        let m = other.source.len();
        if m > n {
            assert forall|j: int| !occurs_at(self.chars(), other.chars(), j) by {}
            return None;
        }
        let max_index = n - m;
        let mut i: usize = 0;
        while i <= max_index
            invariant
                n == self.source.len(),
                m == other.source.len(),
                max_index == n - m,
                i <= max_index + 1,
                forall|j: int| 0 <= j < i ==> !occurs_at(self.source@, other.source@, j),
            decreases max_index + 1 - i,
        {
            let mut k: usize = 0;
            let mut same = true;
            while k < m
                invariant
                    n == self.source.len(),
                    m == other.source.len(),
                    i + m <= n,
                    k <= m,
                    same ==> forall|x: int| 0 <= x < k ==> self.source@[i + x] == other.source@[x],
                    !same ==> exists|x: int|
                        0 <= x < m && self.source@[i + x] != other.source@[x],
                decreases m - k,
            {
                if self.source[i + k] != other.source[k] {
                    same = false;
                }
                k += 1;
            }
            if same {
                assert(self.source@.subrange(i as int, i + m) =~= other.source@);
                return Some(i);
            }
            proof {
                let x = choose|x: int| 0 <= x < m && self.source@[i + x] != other.source@[x];
                assert(self.source@.subrange(i as int, i + m)[x] == self.source@[i + x]);
            }
            i += 1;
        }
        assert forall|j: int| !occurs_at(self.chars(), other.chars(), j) by {}
        None
    }

    fn is_empty(&self) -> (r: bool) {
        self.source.len() == 0
    }

    fn substring(&self, start: usize, end: usize) -> (r: CharString) {
        let mut out: Vec<char> = Vec::new();
        let mut i: usize = start;
        while i < end
            invariant
                start <= i <= end,
                end <= self.source.len(),
                out@ == self.source@.subrange(start as int, i as int),
            decreases end - i,
        {
            out.push(self.source[i]);
            i += 1;
            assert(out@ =~= self.source@.subrange(start as int, i as int));
        }
        CharString { source: out }
    }
}

impl CharString {
    /// The string with the characters of `value`.
    pub fn from_str(value: &str) -> (r: CharString)
        ensures
            r@ == value@,
            r.chars() == value@,
    {
        CharString { source: chars_of(value) }
    }

    /// The string of one character.
    pub fn from_char(value: char) -> (r: CharString)
        ensures
            r@ == seq![value],
            r.chars() == seq![value],
    {
        let mut source: Vec<char> = Vec::new();
        source.push(value);
        assert(source@ =~= seq![value]);
        CharString { source }
    }

    /// The string with the given characters.
    pub fn from_chars(source: Vec<char>) -> (r: CharString)
        ensures
            r@ == source@,
            r.chars() == source@,
    {
        CharString { source }
    }

    /// The character at offset `index`.
    pub fn get(&self, index: usize) -> (r: char)
        requires
            index < self@.len(),
        ensures
            r == self@[index as int],
    {
        self.source[index]
    }

    /// The characters as text.
    pub fn text(&self) -> (r: String)
        ensures
            r@ == self@,
    {
        string_of(&self.source)
    }

    /// A copy.
    pub fn duplicate(&self) -> (r: CharString)
        ensures
            r@ == self@,
            r.chars() == self.chars(),
    {
        let r = self.substring(0, self.source.len());
        assert(self.source@.subrange(0, self.source@.len() as int) =~= self.source@);
        r
    }

    /// This string followed by `other`.
    pub fn joined(&self, other: &CharString) -> (r: CharString)
        ensures
            r@ == self@ + other@,
    {
        let mut out = self.duplicate();
        let mut i: usize = 0;
        while i < other.source.len()
            invariant
                i <= other.source.len(),
                out.source@ == self.source@ + other.source@.take(i as int),
            decreases other.source.len() - i,
        {
            out.source.push(other.source[i]);
            i += 1;
            assert(out.source@ =~= self.source@ + other.source@.take(i as int));
        }
        assert(other.source@.take(other.source@.len() as int) =~= other.source@);
        out
    }

    /// Whether the two strings hold the same characters.
    pub fn same(&self, other: &CharString) -> (r: bool)
        ensures
            r == (self@ == other@),
    {
        if self.source.len() != other.source.len() {
            return false;
        }
        let mut i: usize = 0;
        while i < self.source.len()
            invariant
                i <= self.source.len(),
                self.source.len() == other.source.len(),
                forall|k: int| 0 <= k < i ==> self.source@[k] == other.source@[k],
            decreases self.source.len() - i,
        {
            if self.source[i] != other.source[i] {
                return false;
            }
            i += 1;
        }
        assert(self.source@ =~= other.source@);
        true
    }

    /// The view and the characters of a string are one and the same.
    pub proof fn view_is_chars(&self)
        ensures
            self@ == self.chars(),
    {
    }
}

} // verus!
