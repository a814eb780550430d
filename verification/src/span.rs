//! Line/column source positions.
use vstd::prelude::*;
use vstd::string::StringSliceAdditionalSpecFns;
use vstd::utf8::is_char_boundary;
use crate::utf8::lemma_boundary_in_prefix;

verus! {

/// A position in the source: 0-based line and column, and byte offset.
#[derive(Debug, Clone, Copy, PartialEq, Eq, Hash)]
pub struct Position {
    pub line: u32,
    pub column: u32,
    pub offset: u32,
}

/// A region of the source between two positions.
#[derive(Debug, Clone, Copy, PartialEq, Eq, Hash)]
pub struct Span {
    pub start: Position,
    pub end: Position,
}

impl Position {
    /// A position.
    pub fn new(line: u32, column: u32, offset: u32) -> (r: Self)
        ensures
            r.line == line,
            r.column == column,
            r.offset == offset,
    {
        Position { line, column, offset }
    }

    /// The start of the source.
    pub fn zero() -> (r: Self)
        ensures
            r.line == 0,
            r.column == 0,
            r.offset == 0,
    {
        Position { line: 0, column: 0, offset: 0 }
    }
}

impl Span {
    /// A span from `start` to `end`.
    pub fn new(start: Position, end: Position) -> (r: Self)
        ensures
            r.start == start,
            r.end == end,
    {
        Span { start, end }
    }

    /// The empty span at the start of the source.
    pub open spec fn empty_spec() -> Span {
        Span { start: Position::zero_spec(), end: Position::zero_spec() }
    }

    /// The empty span at the start of the source.
    pub fn empty() -> (r: Self)
        ensures
            r == Span::empty_spec(),
    {
        Span { start: Position::zero(), end: Position::zero() }
    }

    /// The text between the two offsets, or the empty string when they are
    /// reversed or reach past the end of `source`.
    pub fn source_text<'a>(&self, source: &'a str) -> (r: &'a str)
        requires
            self.start.offset <= self.end.offset <= source.spec_bytes().len() ==> (
            is_char_boundary(source.spec_bytes(), self.start.offset as int) && is_char_boundary(
                source.spec_bytes(),
                self.end.offset as int,
            )),
        ensures
            self.start.offset <= self.end.offset <= source.spec_bytes().len() ==> r.spec_bytes()
                =~= source.spec_bytes().subrange(self.start.offset as int, self.end.offset as int),
            !(self.start.offset <= self.end.offset <= source.spec_bytes().len())
                ==> r.spec_bytes().len() == 0,
    {
        let start = self.start.offset as usize;
        let end = self.end.offset as usize;
        proof {
            vstd::utf8::encode_utf8_valid_utf8(source@);
        }
        let len = source.as_bytes().len();
        if start <= end && end <= len {
            proof {
                lemma_boundary_in_prefix(source.spec_bytes(), start as int, end as int);
            }
            let (prefix, _) = source.split_at(end);
            assert(prefix.spec_bytes() =~= source.spec_bytes().subrange(0, end as int));
            let (_, mid) = prefix.split_at(start);
            assert(mid.spec_bytes() =~= source.spec_bytes().subrange(start as int, end as int));
            assert(start == self.start.offset && end == self.end.offset);
            assert(mid.spec_bytes() =~= source.spec_bytes().subrange(
                self.start.offset as int,
                self.end.offset as int,
            ));
            mid
        } else {
            let (empty, _) = source.split_at(0);
            empty
        }
    }
}

impl Position {
    /// The start of the source.
    pub open spec fn zero_spec() -> Position {
        Position { line: 0, column: 0, offset: 0 }
    }
}

} // verus!
