//! What the interpreter asks of a string representation.
use vstd::prelude::*;

verus! {

/// `needle` stands in `hay` at offset `i`.
pub open spec fn occurs_at(hay: Seq<char>, needle: Seq<char>, i: int) -> bool {
    0 <= i && i + needle.len() <= hay.len() && hay.subrange(i, i + needle.len()) == needle
}

/// A string addressed by character, not by byte.
pub trait StringApi: Sized {
    /// The characters of the string.
    spec fn chars(&self) -> Seq<char>;

    /// The number of characters.
    fn len(&self) -> (r: usize)
        ensures
            r == self.chars().len(),
    ;

    /// The offset of the first place where `other` stands in this string.
    fn find(&self, other: &Self) -> (r: Option<usize>)
        ensures
            match r {
                Some(i) => occurs_at(self.chars(), other.chars(), i as int) && forall|j: int|
                    0 <= j < i ==> !occurs_at(self.chars(), other.chars(), j),
                None => forall|j: int| !occurs_at(self.chars(), other.chars(), j),
            },
    ;

    fn is_empty(&self) -> (r: bool)
        ensures
            r == (self.chars().len() == 0),
    ;

    /// The characters from `start` up to `end`.
    fn substring(&self, start: usize, end: usize) -> (r: Self)
        requires
            start <= end <= self.chars().len(),
        ensures
            r.chars() == self.chars().subrange(start as int, end as int),
    ;
}

} // verus!
