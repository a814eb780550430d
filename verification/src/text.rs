//! Source location primitives: byte offsets and byte ranges.
use vstd::prelude::*;
use vstd::utf8::*;
use vstd::string::StringSliceAdditionalSpecFns;
use crate::utf8::lemma_boundary_in_prefix;

verus! {

/// A byte offset in the source text.
#[derive(Debug, Clone, Copy, PartialEq, Eq, PartialOrd, Ord, Hash, Default)]
pub struct TextSize(pub u32);

impl TextSize {
    /// Creates a new text size from a raw byte offset.
    pub fn new(raw: u32) -> (r: Self)
        ensures
            r.0 == raw,
    {
        TextSize(raw)
    }

    /// Returns the raw byte offset.
    pub fn raw(self) -> (r: u32)
        ensures
            r == self.0,
    {
        self.0
    }
}

/// A range `[start, end)` of byte offsets in the source text.
#[derive(Debug, Clone, Copy, PartialEq, Eq, Hash, Default)]
pub struct TextRange {
    pub start: TextSize,
    pub end: TextSize,
}

impl From<u32> for TextSize {
    fn from(raw: u32) -> (r: Self) {
        TextSize(raw)
    }
}

impl vstd::std_specs::convert::FromSpecImpl<u32> for TextSize {
    open spec fn obeys_from_spec() -> bool {
        true
    }

    open spec fn from_spec(v: u32) -> Self {
        TextSize(v)
    }
}

impl From<TextSize> for u32 {
    fn from(size: TextSize) -> (r: Self) {
        size.0
    }
}

impl vstd::std_specs::convert::FromSpecImpl<TextSize> for u32 {
    open spec fn obeys_from_spec() -> bool {
        true
    }

    open spec fn from_spec(v: TextSize) -> Self {
        v.0
    }
}

impl From<TextSize> for usize {
    fn from(size: TextSize) -> (r: Self) {
        size.0 as usize
    }
}

impl vstd::std_specs::convert::FromSpecImpl<TextSize> for usize {
    open spec fn obeys_from_spec() -> bool {
        true
    }

    open spec fn from_spec(v: TextSize) -> Self {
        v.0 as usize
    }
}

/// A `usize` offset, truncated to 32 bits.
impl From<usize> for TextSize {
    fn from(raw: usize) -> (r: Self) {
        TextSize(raw as u32)
    }
}

impl vstd::std_specs::convert::FromSpecImpl<usize> for TextSize {
    open spec fn obeys_from_spec() -> bool {
        true
    }

    open spec fn from_spec(v: usize) -> Self {
        TextSize(v as u32)
    }
}

/// Offsets add when the sum fits in 32 bits.
impl core::ops::Add for TextSize {
    type Output = Self;

    fn add(self, rhs: Self) -> (r: Self) {
        TextSize(self.0 + rhs.0)
    }
}

impl vstd::std_specs::ops::AddSpecImpl for TextSize {
    open spec fn obeys_add_spec() -> bool {
        true
    }

    open spec fn add_req(self, rhs: Self) -> bool {
        self.0 + rhs.0 <= u32::MAX
    }

    open spec fn add_spec(self, rhs: Self) -> Self {
        TextSize((self.0 + rhs.0) as u32)
    }
}

/// Offsets subtract when the first is not below the second.
impl core::ops::Sub for TextSize {
    type Output = Self;

    fn sub(self, rhs: Self) -> (r: Self) {
        TextSize(self.0 - rhs.0)
    }
}

impl vstd::std_specs::ops::SubSpecImpl for TextSize {
    open spec fn obeys_sub_spec() -> bool {
        true
    }

    open spec fn sub_req(self, rhs: Self) -> bool {
        self.0 >= rhs.0
    }

    open spec fn sub_spec(self, rhs: Self) -> Self {
        TextSize((self.0 - rhs.0) as u32)
    }
}

impl TextRange {
    /// The range as a pair of mathematical integers.
    pub open spec fn lo(self) -> int {
        self.start.0 as int
    }

    /// The end offset as a mathematical integer.
    pub open spec fn hi(self) -> int {
        self.end.0 as int
    }

    /// Creates a new range from start (inclusive) and end (exclusive) offsets.
    pub fn new(start: TextSize, end: TextSize) -> (r: Self)
        ensures
            r.start == start,
            r.end == end,
    {
        TextRange { start, end }
    }

    /// The empty range at offset 0.
    pub open spec fn spec_empty() -> TextRange {
        TextRange { start: TextSize(0), end: TextSize(0) }
    }

    /// The empty range at offset 0.
    pub fn empty() -> (r: Self)
        ensures
            r == TextRange::spec_empty(),
    {
        TextRange { start: TextSize(0), end: TextSize(0) }
    }

    /// Start offset (inclusive).
    pub fn start(self) -> (r: TextSize)
        ensures
            r == self.start,
    {
        self.start
    }

    /// End offset (exclusive).
    pub fn end(self) -> (r: TextSize)
        ensures
            r == self.end,
    {
        self.end
    }

    /// Length of the range in bytes (`end - start`).
    pub fn len(self) -> (r: TextSize)
        requires
            self.lo() <= self.hi(),
        ensures
            r.0 == self.hi() - self.lo(),
    {
        TextSize(self.end.0 - self.start.0)
    }

    /// Whether the range is empty (`start == end`).
    pub fn is_empty(self) -> (r: bool)
        ensures
            r == (self.lo() == self.hi()),
    {
        self.start.0 == self.end.0
    }

    /// Whether `offset` lies in `[start, end)`.
    pub fn contains(self, offset: TextSize) -> (r: bool)
        ensures
            r == (self.lo() <= offset.0 < self.hi()),
    {
        self.start.0 <= offset.0 && offset.0 < self.end.0
    }

    /// The range `[offset, offset + len)`, each end truncated to 32 bits.
    pub fn from_offset_len(offset: usize, len: usize) -> (r: Self)
        requires
            offset + len <= usize::MAX,
        ensures
            r.lo() == offset as u32,
            r.hi() == (offset + len) as u32,
    {
        TextRange { start: TextSize(offset as u32), end: TextSize((offset + len) as u32) }
    }

    /// Spec of [`TextRange::extend`]: an empty range is replaced by `other`,
    /// otherwise its end moves to `other`'s end.
    pub open spec fn extended(self, other: TextRange) -> TextRange {
        if self.lo() == self.hi() {
            other
        } else {
            TextRange { start: self.start, end: other.end }
        }
    }

    /// Extend this range to include `other`.
    pub fn extend(&mut self, other: TextRange)
        ensures
            *final(self) == old(self).extended(other),
    {
        if self.is_empty() {
            *self = other;
        } else {
            self.end = other.end;
        }
    }

    /// Whether this range can be sliced out of `source`: when it lies inside
    /// the source, both ends fall on character boundaries.
    pub open spec fn sliceable(self, source: &str) -> bool {
        self.lo() <= self.hi() <= source.spec_bytes().len() ==> {
            &&& is_char_boundary(source.spec_bytes(), self.lo())
            &&& is_char_boundary(source.spec_bytes(), self.hi())
        }
    }

    /// Extracts the text covered by this range, or the empty string when the
    /// range is reversed or reaches past the end of `source`.
    pub fn source_text<'a>(&self, source: &'a str) -> (r: &'a str)
        requires
            self.sliceable(source),
        ensures
            self.lo() <= self.hi() <= source.spec_bytes().len() ==> r.spec_bytes()
                =~= source.spec_bytes().subrange(self.lo(), self.hi()),
            !(self.lo() <= self.hi() <= source.spec_bytes().len()) ==> r.spec_bytes().len() == 0,
    {
        let start = self.start.0 as usize;
        let end = self.end.0 as usize;
        let len = source.as_bytes().len();
        if start <= end && end <= len {
            proof {
                vstd::utf8::encode_utf8_valid_utf8(source@);
                lemma_boundary_in_prefix(source.spec_bytes(), start as int, end as int);
            }
            let (prefix, _) = source.split_at(end);
            assert(prefix.spec_bytes() =~= source.spec_bytes().subrange(0, end as int));
            let (_, mid) = prefix.split_at(start);
            assert(mid.spec_bytes() =~= source.spec_bytes().subrange(start as int, end as int));
            assert(start == self.lo() && end == self.hi());
            mid
        } else {
            proof {
                vstd::utf8::encode_utf8_valid_utf8(source@);
            }
            let (empty, _) = source.split_at(0);
            empty
        }
    }
}

} // verus!
