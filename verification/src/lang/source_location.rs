//! Positions in source text, and a crawler that walks the text with one character of lookahead.
use vstd::prelude::*;
use vstd::std_specs::cmp::PartialEqSpecImpl;
use crate::text::chars_of;

verus! {

/// A position in source text, all three counts starting at zero.
#[derive(Copy, Clone, PartialEq, Eq, Debug, Structural)]
pub struct SourceLocation {
    pub character: usize,
    pub line: usize,
    pub column: usize,
}

/// The position one character after `l`, when that character was `c`.
pub open spec fn advanced(l: SourceLocation, c: char) -> SourceLocation {
    if c == '\n' {
        SourceLocation {
            character: (l.character + 1) as usize,
            line: (l.line + 1) as usize,
            column: 0,
        }
    } else {
        SourceLocation {
            character: (l.character + 1) as usize,
            line: l.line,
            column: (l.column + 1) as usize,
        }
    }
}

/// The position of the character at offset `i` of `text`.
pub open spec fn location_at(text: Seq<char>, i: nat) -> SourceLocation
    decreases i,
{
    if i == 0 {
        SourceLocation { character: 0, line: 0, column: 0 }
    } else {
        advanced(location_at(text, (i - 1) as nat), text[i - 1])
    }
}

/// A position counts at most as many lines and columns as characters.
pub proof fn location_at_is_bounded(text: Seq<char>, i: nat)
    requires
        i <= usize::MAX,
    ensures
        location_at(text, i).character == i,
        location_at(text, i).line <= i,
        location_at(text, i).column <= i,
    decreases i,
{
    if i > 0 {
        location_at_is_bounded(text, (i - 1) as nat);
    }
}

impl SourceLocation {
    /// Every counter has room for one more step.
    pub open spec fn steppable(self) -> bool {
        self.character < usize::MAX && self.line < usize::MAX && self.column < usize::MAX
    }

    /// The position of the first character.
    pub fn start() -> (r: SourceLocation)
        ensures
            r == (SourceLocation { character: 0, line: 0, column: 0 }),
    {
        SourceLocation { character: 0, line: 0, column: 0 }
    }

    /// The position one character further, when the character here is `c`.
    #[must_use]
    pub fn add(&self, c: char) -> (r: SourceLocation)
        requires
            self.steppable(),
        ensures
            r == advanced(*self, c),
            r.character == self.character + 1,
            self.line <= self.character && self.column <= self.character ==> r.line
                <= r.character && r.column <= r.character,
    {
        if c == '\n' {
            SourceLocation { character: self.character + 1, line: self.line + 1, column: 0 }
        } else {
            SourceLocation {
                character: self.character + 1,
                line: self.line,
                column: self.column + 1,
            }
        }
    }
}

/// A stretch of source text from `start` up to `end`.
///
/// Ranges say where something was written, not what it is: any two ranges compare equal,
/// so that terms compare by meaning alone.
#[derive(Copy, Clone, Debug)]
pub struct SourceRange {
    pub start: SourceLocation,
    pub end: SourceLocation,
}

impl PartialEq for SourceRange {
    fn eq(&self, other: &SourceRange) -> (r: bool) {
        true
    }
}

impl PartialEqSpecImpl for SourceRange {
    open spec fn obeys_eq_spec() -> bool {
        true
    }

    open spec fn eq_spec(&self, other: &SourceRange) -> bool {
        true
    }
}

impl SourceRange {
    /// The range that starts and ends at one position.
    pub fn at(l: SourceLocation) -> (r: SourceRange)
        ensures
            r.start == l,
            r.end == l,
    {
        SourceRange { start: l, end: l }
    }

    /// The range between two positions.
    pub fn between(start: SourceLocation, end: SourceLocation) -> (r: SourceRange)
        ensures
            r.start == start,
            r.end == end,
    {
        SourceRange { start, end }
    }
}

/// Where a crawled character stands, with the positions before and after it.
#[derive(Clone, PartialEq, Debug)]
pub struct SourcePositions {
    pub prev: Option<SourceLocation>,
    pub current: SourceLocation,
    pub next: Option<SourceLocation>,
}

/// Walks source text one character at a time.
pub struct SourceCrawler {
    chars: Vec<char>,
    at: usize,
    prev_location: Option<SourceLocation>,
    current_location: SourceLocation,
}

/// What the crawler yields for the character at offset `i`.
pub open spec fn crawled(text: Seq<char>, i: int) -> (char, Option<char>, SourcePositions) {
    (
        text[i],
        if i + 1 < text.len() {
            Some(text[i + 1])
        } else {
            None
        },
        SourcePositions {
            prev: if i == 0 {
                None
            } else {
                Some(location_at(text, (i - 1) as nat))
            },
            current: location_at(text, i as nat),
            next: if i + 1 < text.len() {
                Some(location_at(text, (i + 1) as nat))
            } else {
                None
            },
        },
    )
}

impl SourceCrawler {
    /// The text being walked.
    pub closed spec fn text(self) -> Seq<char> {
        self.chars@
    }

    /// How many characters were handed out.
    pub closed spec fn offset(self) -> nat {
        self.at as nat
    }

    /// The crawler's positions agree with its offset.
    pub closed spec fn wf(self) -> bool {
        &&& self.at <= self.chars.len()
        &&& self.chars.len() > 0
        &&& self.current_location == location_at(
            self.chars@,
            if self.at < self.chars.len() {
                self.at as nat
            } else {
                (self.chars.len() - 1) as nat
            },
        )
        &&& self.prev_location == if self.at == 0 {
            None
        } else {
            Some(location_at(self.chars@, (self.at - 1) as nat))
        }
    }

    /// A crawler at the start of `source`, or nothing when the text is empty.
    pub fn new(source: &str) -> (r: Option<SourceCrawler>)
        ensures
            r is Some <==> source@.len() > 0,
            r is Some ==> r->0.wf() && r->0.text() == source@ && r->0.offset() == 0,
    {
        let chars = chars_of(source);
        if chars.len() == 0 {
            None
        } else {
            Some(
                SourceCrawler {
                    chars,
                    at: 0,
                    prev_location: None,
                    current_location: SourceLocation::start(),
                },
            )
        }
    }

    /// The position of the last character handed out, or the start before any was.
    pub fn last_seen_location(&self) -> (r: SourceLocation)
        requires
            self.wf(),
        ensures
            r == location_at(
                self.text(),
                if self.offset() < self.text().len() {
                    self.offset()
                } else {
                    (self.text().len() - 1) as nat
                },
            ),
    {
        self.current_location
    }

    /// Hands out the next character with its lookahead and positions.
    pub fn next(&mut self) -> (r: Option<(char, Option<char>, SourcePositions)>)
        requires
            old(self).wf(),
        ensures
            final(self).wf(),
            final(self).text() == old(self).text(),
            old(self).offset() < old(self).text().len() ==> r == Some(
                crawled(old(self).text(), old(self).offset() as int),
            ) && final(self).offset() == old(self).offset() + 1,
            old(self).offset() >= old(self).text().len() ==> r is None && final(self).offset()
                == old(self).offset(),
    {
        if self.at >= self.chars.len() {
            return None;
        }
        let c = self.chars[self.at];
        proof {
            location_at_is_bounded(self.chars@, self.at as nat);
        }
        let following = if self.at + 1 < self.chars.len() {
            Some(self.chars[self.at + 1])
        } else {
            None
        };
        let next = if self.at + 1 < self.chars.len() {
            Some(self.current_location.add(c))
        } else {
            None
        };
        let positions = SourcePositions {
            prev: self.prev_location,
            current: self.current_location,
            next,
        };
        self.prev_location = Some(self.current_location);
        match next {
            Some(n) => {
                self.current_location = n;
            },
            None => {},
        }
        self.at = self.at + 1;
        Some((c, following, positions))
    }
}

} // verus!
