//! Shared AST types: byte ranges, line/column lookup, spanned values and
//! the docstring style identifier.
use vstd::prelude::*;
use vstd::string::StringSliceAdditionalSpecFns;
use crate::cursor::nl_offsets;
use crate::cursor::lemma_nl_offsets;
pub use crate::text::{TextRange, TextSize};

verus! {

broadcast use vstd::seq::group_seq_axioms;

/// Index mapping byte offsets to 0-based (line, column) positions.
pub struct LineIndex {
    /// Byte offset of each line start.
    line_starts: Vec<TextSize>,
}

/// Line starts of a source as byte offsets: 0, then one past each `\n`.
pub open spec fn line_starts_of(b: Seq<u8>) -> Seq<int> {
    nl_offsets(b, b.len() as int)
}

/// The number of `\n` bytes in `b`.
pub open spec fn newline_count(b: Seq<u8>) -> nat {
    b.filter(|c: u8| c == 0x0A).len()
}

/// The line starts found in `b[0..n)` are one more than its newlines.
proof fn lemma_starts_count(b: Seq<u8>, n: int)
    requires
        0 <= n <= b.len(),
    ensures
        nl_offsets(b, n).len() == 1 + newline_count(b.subrange(0, n)),
    decreases n,
{
    reveal(Seq::filter);
    if n > 0 {
        lemma_starts_count(b, n - 1);
        assert(b.subrange(0, n).drop_last() =~= b.subrange(0, n - 1));
    } else {
        assert(b.subrange(0, n) =~= Seq::<u8>::empty());
    }
}

/// Law: a source has one line more than it has `\n` bytes (a trailing
/// `\n` opens an empty last line), so the empty source has one line.
pub proof fn law_line_starts_count(b: Seq<u8>)
    ensures
        line_starts_of(b).len() == 1 + newline_count(b),
{
    lemma_starts_count(b, b.len() as int);
    assert(b.subrange(0, b.len() as int) =~= b);
}

/// Law: an offset `o` within the source that lies at or after the start of
/// line `l` and before the start of the next line (as
/// [`LineIndex::line_col`] finds) is on line `l`: no `\n` lies between the
/// line's start and `o`.
pub proof fn law_line_col_on_line(b: Seq<u8>, o: int, l: int)
    requires
        0 <= l < line_starts_of(b).len(),
        line_starts_of(b)[l] <= o <= b.len(),
        l + 1 < line_starts_of(b).len() ==> o < line_starts_of(b)[l + 1],
    ensures
        forall|p: int| line_starts_of(b)[l] <= p < o ==> b[p] != 0x0A,
{
    let st = line_starts_of(b);
    lemma_nl_offsets(b, b.len() as int);
    assert forall|p: int| st[l] <= p < o implies b[p] != 0x0A by {
        if b[p] == 0x0A {
            let i = choose|i: int| 0 <= i < st.len() && st[i] == p + 1;
            if i <= l {
                if i < l {
                    assert(st[i] < st[l]);
                }
            } else {
                if i > l + 1 {
                    assert(st[l + 1] < st[i]);
                }
            }
        }
    }
}

impl LineIndex {
    /// The line starts, strictly increasing from 0.
    #[verifier::type_invariant]
    spec fn inv(self) -> bool {
        &&& self.line_starts@.len() >= 1
        &&& self.line_starts@.len() <= u32::MAX + 1
        &&& self.line_starts@[0].0 == 0
        &&& forall|i: int, j: int|
            0 <= i < j < self.line_starts@.len() ==> self.line_starts@[i].0 < self.line_starts@[j].0
    }

    /// The line start offsets.
    pub closed spec fn starts(self) -> Seq<int> {
        self.line_starts@.map_values(|t: TextSize| t.0 as int)
    }

    /// Build the index of `source`.
    pub fn from_source(source: &str) -> (r: Self)
        requires
            source.spec_bytes().len() <= u32::MAX,
        ensures
            r.starts() == line_starts_of(source.spec_bytes()),
            r.starts().len() == 1 + newline_count(source.spec_bytes()),
    {
        proof {
            law_line_starts_count(source.spec_bytes());
        }
        let bytes = source.as_bytes();
        let mut line_starts: Vec<TextSize> = Vec::new();
        line_starts.push(TextSize(0));
        let mut i: usize = 0;
        proof {
            lemma_nl_offsets(bytes@, 0);
        }
        while i < bytes.len()
            invariant
                i <= bytes@.len() <= u32::MAX,
                line_starts@.len() <= i + 1,
                line_starts@.len() == nl_offsets(bytes@, i as int).len(),
                forall|j: int|
                    0 <= j < line_starts@.len() ==> line_starts@[j].0 as int == #[trigger] nl_offsets(
                        bytes@,
                        i as int,
                    )[j],
            decreases bytes@.len() - i,
        {
            if bytes[i] == 0x0A {
                line_starts.push(TextSize((i + 1) as u32));
            }
            i = i + 1;
            proof {
                lemma_nl_offsets(bytes@, i as int);
            }
        }
        proof {
            lemma_nl_offsets(bytes@, bytes@.len() as int);
            assert(line_starts@.map_values(|t: TextSize| t.0 as int) =~= line_starts_of(bytes@));
            assert(line_starts@[0].0 == 0);
            assert forall|i: int, j: int| 0 <= i < j < line_starts@.len() implies line_starts@[i].0
                < line_starts@[j].0 by {
                assert(nl_offsets(bytes@, bytes@.len() as int)[i] < nl_offsets(bytes@, bytes@.len() as int)[j]);
            }
        }
        LineIndex { line_starts }
    }

    /// 0-based (line, column) of `offset`: the line is the last one starting
    /// at or before `offset`, the column the byte distance from its start.
    pub fn line_col(&self, offset: TextSize) -> (r: (u32, u32))
        ensures
            0 <= r.0 < self.starts().len(),
            self.starts()[r.0 as int] <= offset.0,
            r.0 + 1 < self.starts().len() ==> offset.0 < self.starts()[r.0 + 1],
            r.1 == offset.0 - self.starts()[r.0 as int],
    {
        proof {
            use_type_invariant(self);
        }
        // Binary search for the last start <= offset.
        let mut lo: usize = 0;
        let mut hi: usize = self.line_starts.len();
        while lo + 1 < hi
            invariant
                0 <= lo < hi <= self.line_starts@.len(),
                self.line_starts@.len() >= 1,
                self.line_starts@[lo as int].0 <= offset.0,
                hi < self.line_starts@.len() ==> offset.0 < self.line_starts@[hi as int].0,
                forall|i: int, j: int|
                    0 <= i < j < self.line_starts@.len() ==> self.line_starts@[i].0
                        < self.line_starts@[j].0,
            decreases hi - lo,
        {
            let mid = lo + (hi - lo) / 2;
            if self.line_starts[mid].0 <= offset.0 {
                lo = mid;
            } else {
                hi = mid;
            }
        }
        (lo as u32, offset.0 - self.line_starts[lo].0)
    }

    /// 0-based line of `offset`.
    pub fn line(&self, offset: TextSize) -> (r: u32)
        ensures
            0 <= r < self.starts().len(),
            self.starts()[r as int] <= offset.0,
            r + 1 < self.starts().len() ==> offset.0 < self.starts()[r + 1],
    {
        self.line_col(offset).0
    }

    /// Byte offset of the start of `line` (offset 0 past the last line).
    pub fn line_start(&self, line: u32) -> (r: TextSize)
        ensures
            line < self.starts().len() ==> r.0 == self.starts()[line as int],
            line >= self.starts().len() ==> r.0 == 0,
    {
        if (line as usize) < self.line_starts.len() {
            self.line_starts[line as usize]
        } else {
            TextSize(0)
        }
    }

    /// Number of lines (one more than the number of `\n`), as a `u32`.
    pub fn line_count(&self) -> (r: u32)
        ensures
            r == self.starts().len() as u32,
    {
        proof {
            use_type_invariant(self);
        }
        self.line_starts.len() as u32
    }
}

/// A value annotated with its source range.
#[derive(Debug, Clone, PartialEq, Eq, Hash)]
pub struct Spanned<T> {
    pub value: T,
    pub range: TextRange,
}

impl<T> Spanned<T> {
    /// A spanned value.
    pub fn new(value: T, range: TextRange) -> (r: Self)
        ensures
            r.value == value,
            r.range == range,
    {
        Spanned { value, range }
    }

    /// A value with the empty range.
    pub fn dummy(value: T) -> (r: Self)
        ensures
            r.value == value,
            r.range == TextRange::spec_empty(),
    {
        Spanned { value, range: TextRange::empty() }
    }

    /// The value, without its range.
    pub fn into_inner(self) -> (r: T)
        ensures
            r == self.value,
    {
        self.value
    }
}

impl Spanned<String> {
    /// The empty string with the empty range.
    pub fn empty_string() -> (r: Self)
        ensures
            r.value@ == Seq::<char>::empty(),
            r.range == TextRange::spec_empty(),
    {
        Spanned { value: String::new(), range: TextRange::empty() }
    }

    /// A borrowed view of the string and its range.
    pub fn as_spanned_str(&self) -> (r: Spanned<&str>)
        ensures
            r.value@ == self.value@,
            r.range == self.range,
    {
        Spanned { value: self.value.as_str(), range: self.range }
    }
}

/// Docstring style identifier.
#[derive(Debug, Clone, Copy, PartialEq, Eq, Hash, Structural)]
pub enum Style {
    /// Section headers underlined by dashes.
    NumPy,
    /// Section headers ending with a colon.
    Google,
    /// Field lists such as `:param x:`.
    Sphinx,
}

impl Style {
    /// The lowercase name of the style.
    pub fn display_name(&self) -> (r: &'static str)
        ensures
            r@ == style_name(*self)@,
    {
        match self {
            Style::NumPy => "numpy",
            Style::Google => "google",
            Style::Sphinx => "sphinx",
        }
    }
}

/// Lowercase names of the styles.
pub open spec fn style_name(s: Style) -> &'static str {
    match s {
        Style::NumPy => "numpy",
        Style::Google => "google",
        Style::Sphinx => "sphinx",
    }
}

} // verus!
