//! Line-oriented cursor over the UTF-8 bytes of a docstring.
//!
//! Lines are separated by `\n`; a line's text excludes its `\n`.  A trailing
//! `\n` does not start a further line.
use vstd::prelude::*;
use vstd::string::StringSliceAdditionalSpecFns;
use crate::lexical::{trim_lo, trim_hi, indent_columns, lemma_skip_ws_bounds, lemma_skip_ws_back_bounds, trim_exec, skip_ws_exec, indent_columns_exec};
use crate::text::{TextRange, TextSize};
use crate::ast::Spanned;
use crate::styles::utils::{any_close_from, find_matching_close};
use crate::utf8::{lemma_ascii_boundary, lemma_boundary_iff_not_continuation, lemma_trim_boundary};
use vstd::utf8::{valid_utf8, is_char_boundary};

verus! {

broadcast use vstd::seq::group_seq_axioms;

/// Start offsets of the lines of `b[0..n)`: 0, then one past each `\n`.
pub open spec fn nl_offsets(b: Seq<u8>, n: int) -> Seq<int>
    decreases n,
{
    if n <= 0 {
        seq![0int]
    } else if b[n - 1] == 0x0A {
        nl_offsets(b, n - 1).push(n)
    } else {
        nl_offsets(b, n - 1)
    }
}

/// Start offset of every line of `b` (including the empty piece after a
/// trailing `\n`).
pub open spec fn line_offsets(b: Seq<u8>) -> Seq<int> {
    nl_offsets(b, b.len() as int)
}

/// Number of text lines: 0 for empty input; a trailing `\n` does not start
/// a line of its own.
pub open spec fn line_count(b: Seq<u8>) -> int {
    if b.len() == 0 {
        0
    } else if b[b.len() - 1] == 0x0A {
        line_offsets(b).len() - 1
    } else {
        line_offsets(b).len() as int
    }
}

/// Start of the text of line `k` (the end of input past the last line).
pub open spec fn line_lo(b: Seq<u8>, k: int) -> int {
    let o = line_offsets(b);
    if 0 <= k < o.len() {
        o[k]
    } else {
        b.len() as int
    }
}

/// End of the text of line `k` (excluding its `\n`).
pub open spec fn line_hi(b: Seq<u8>, k: int) -> int {
    let o = line_offsets(b);
    if 0 <= k && k + 1 < o.len() {
        o[k + 1] - 1
    } else {
        b.len() as int
    }
}

/// Start of the trimmed text of line `k`.
pub open spec fn tlo(b: Seq<u8>, k: int) -> int {
    trim_lo(b, line_lo(b, k), line_hi(b, k))
}

/// End of the trimmed text of line `k`.
pub open spec fn thi(b: Seq<u8>, k: int) -> int {
    trim_hi(b, line_lo(b, k), line_hi(b, k))
}

/// Line `k` holds only whitespace.
pub open spec fn is_blank(b: Seq<u8>, k: int) -> bool {
    tlo(b, k) == thi(b, k)
}

/// Visual indentation (in columns) of line `k`.
pub open spec fn indent_cols(b: Seq<u8>, k: int) -> int {
    indent_columns(b, line_lo(b, k), line_hi(b, k))
}

/// The range of the trimmed text of line `k`.
pub open spec fn trimmed_range(b: Seq<u8>, k: int) -> TextRange {
    mk_range(tlo(b, k), thi(b, k))
}

/// A range from mathematical offsets.
pub open spec fn mk_range(lo: int, hi: int) -> TextRange {
    TextRange { start: TextSize(lo as u32), end: TextSize(hi as u32) }
}

/// The range `[lo, hi)`.
pub fn rng(lo: usize, hi: usize) -> (r: TextRange)
    requires
        lo <= hi <= u32::MAX,
    ensures
        r == mk_range(lo as int, hi as int),
{
    TextRange::from_offset_len(lo, hi - lo)
}

/// First line at or after `k` that is not blank (or `line_count`).
pub open spec fn first_nonblank_from(b: Seq<u8>, k: int) -> int
    decreases line_count(b) - k,
{
    if k < line_count(b) && is_blank(b, k) {
        first_nonblank_from(b, k + 1)
    } else {
        k
    }
}

/// `first_nonblank_from` stops at `k` itself or further on, and on a
/// non-blank line unless it ran past the last line.
pub proof fn lemma_first_nonblank_bounds(b: Seq<u8>, k: int)
    ensures
        first_nonblank_from(b, k) >= k,
        first_nonblank_from(b, k) < line_count(b) ==> !is_blank(b, first_nonblank_from(b, k)),
    decreases line_count(b) - k,
{
    if k < line_count(b) && is_blank(b, k) {
        lemma_first_nonblank_bounds(b, k + 1);
    }
}

/// Every line of `b` holds only whitespace.
pub open spec fn all_blank(b: Seq<u8>) -> bool {
    forall|k: int| 0 <= k < line_count(b) ==> #[trigger] is_blank(b, k)
}

/// No non-blank line is found from `k` on exactly when every line from `k`
/// on is blank.
pub proof fn lemma_first_nonblank_none(b: Seq<u8>, k: int)
    requires
        0 <= k,
    ensures
        first_nonblank_from(b, k) >= line_count(b) <==> forall|j: int|
            k <= j < line_count(b) ==> #[trigger] is_blank(b, j),
    decreases line_count(b) - k,
{
    if k < line_count(b) && is_blank(b, k) {
        lemma_first_nonblank_none(b, k + 1);
        assert((forall|j: int| k + 1 <= j < line_count(b) ==> #[trigger] is_blank(b, j)) ==> (
        forall|j: int| k <= j < line_count(b) ==> #[trigger] is_blank(b, j))) by {
            assert forall|j: int| k <= j < line_count(b) && (forall|i: int|
                k + 1 <= i < line_count(b) ==> #[trigger] is_blank(b, i)) implies is_blank(b, j) by {
                if j > k {
                    assert(is_blank(b, j));
                }
            }
        }
    }
}

/// Last non-blank line strictly before `k` (down to line `lo`), or `lo - 1`.
pub open spec fn last_nonblank_before(b: Seq<u8>, lo: int, k: int) -> int
    decreases k - lo,
{
    if k <= lo {
        lo - 1
    } else if !is_blank(b, k - 1) {
        k - 1
    } else {
        last_nonblank_before(b, lo, k - 1)
    }
}

/// The line starts found in `b[0..n)` begin with 0, increase strictly, stay
/// within `[0, n]`, follow a newline each, and include one past every newline.
pub proof fn lemma_nl_offsets(b: Seq<u8>, n: int)
    requires
        0 <= n <= b.len(),
    ensures
        nl_offsets(b, n).len() >= 1,
        nl_offsets(b, n)[0] == 0,
        forall|i: int, j: int|
            0 <= i < j < nl_offsets(b, n).len() ==> nl_offsets(b, n)[i] < nl_offsets(b, n)[j],
        forall|i: int| 0 <= i < nl_offsets(b, n).len() ==> 0 <= #[trigger] nl_offsets(b, n)[i] <= n,
        forall|i: int|
            1 <= i < nl_offsets(b, n).len() ==> b[#[trigger] nl_offsets(b, n)[i] - 1] == 0x0A,
        n > 0 && b[n - 1] == 0x0A ==> nl_offsets(b, n).last() == n,
        forall|p: int|
            #![trigger b[p]]
            0 <= p < n && b[p] == 0x0A ==> exists|i: int|
                0 <= i < nl_offsets(b, n).len() && nl_offsets(b, n)[i] == p + 1,
    decreases n,
{
    if n > 0 {
        lemma_nl_offsets(b, n - 1);
        let p = nl_offsets(b, n - 1);
        if b[n - 1] == 0x0A {
            let q = p.push(n);
            assert forall|x: int| #![trigger b[x]] 0 <= x < n && b[x] == 0x0A implies exists|i: int|
                0 <= i < q.len() && q[i] == x + 1 by {
                if x == n - 1 {
                    assert(q[q.len() - 1] == x + 1);
                } else {
                    let i = choose|i: int| 0 <= i < p.len() && p[i] == x + 1;
                    assert(q[i] == x + 1);
                }
            }
        }
    }
}

/// Well-formed line geometry: for every line, `lo <= tlo <= thi <= hi <= len`.
pub proof fn lemma_line_bounds(b: Seq<u8>, k: int)
    ensures
        0 <= line_lo(b, k) <= line_hi(b, k) <= b.len(),
        line_lo(b, k) <= tlo(b, k) <= thi(b, k) <= line_hi(b, k),
{
    lemma_nl_offsets(b, b.len() as int);
    let o = line_offsets(b);
    if 0 <= k && k + 1 < o.len() {
        assert(o[k] < o[k + 1]);
    }
    lemma_skip_ws_bounds(b, line_lo(b, k), line_hi(b, k));
    lemma_skip_ws_back_bounds(b, tlo(b, k), line_hi(b, k));
}

/// Lines come in order: a line ends before any later line starts.
pub proof fn lemma_line_order(b: Seq<u8>, j: int, k: int)
    requires
        0 <= j < k,
    ensures
        line_hi(b, j) <= line_lo(b, k),
        thi(b, j) <= tlo(b, k),
        line_lo(b, j) <= line_lo(b, k),
{
    lemma_nl_offsets(b, b.len() as int);
    lemma_line_bounds(b, j);
    lemma_line_bounds(b, k);
    let o = line_offsets(b);
    if j + 1 < o.len() && k < o.len() {
        if j + 1 < k {
            assert(o[j + 1] < o[k]);
        }
    }
}

/// The ends of a line and of its trimmed text are character boundaries.
pub proof fn lemma_line_boundaries(b: Seq<u8>, k: int)
    requires
        valid_utf8(b),
    ensures
        is_char_boundary(b, line_lo(b, k)),
        is_char_boundary(b, line_hi(b, k)),
        is_char_boundary(b, tlo(b, k)),
        is_char_boundary(b, thi(b, k)),
{
    lemma_nl_offsets(b, b.len() as int);
    lemma_line_bounds(b, k);
    let o = line_offsets(b);
    lemma_boundary_iff_not_continuation(b, b.len() as int);
    if 0 <= k < o.len() && k > 0 {
        assert(b[o[k] - 1] == 0x0A);
        lemma_ascii_boundary(b, o[k] - 1);
    }
    if 0 <= k && k + 1 < o.len() {
        assert(b[o[k + 1] - 1] == 0x0A);
        lemma_ascii_boundary(b, o[k + 1] - 1);
    }
    lemma_trim_boundary(b, line_lo(b, k), line_hi(b, k));
}

/// The part `[lo, hi)` of `source`, whose ends are character boundaries.
fn str_slice<'a>(source: &'a str, lo: usize, hi: usize) -> (r: &'a str)
    requires
        lo <= hi <= source.spec_bytes().len(),
        is_char_boundary(source.spec_bytes(), lo as int),
        is_char_boundary(source.spec_bytes(), hi as int),
    ensures
        r.spec_bytes() == source.spec_bytes().subrange(lo as int, hi as int),
{
    proof {
        vstd::utf8::encode_utf8_valid_utf8(source@);
        crate::utf8::lemma_boundary_in_prefix(source.spec_bytes(), lo as int, hi as int);
    }
    let (prefix, _) = source.split_at(hi);
    assert(prefix.spec_bytes() =~= source.spec_bytes().subrange(0, hi as int));
    let (_, mid) = prefix.split_at(lo);
    assert(mid.spec_bytes() =~= source.spec_bytes().subrange(lo as int, hi as int));
    mid
}

/// A line-oriented cursor over a docstring's bytes.
pub struct Cursor<'a> {
    pub source: &'a str,
    pub bytes: &'a [u8],
    pub offsets: Vec<usize>,
    pub total: usize,
    /// Current line index (0-based).
    pub line: usize,
}

impl<'a> Cursor<'a> {
    /// The cursor's bytes, line table and line count agree with its source.
    pub open spec fn lines_wf(&self) -> bool {
        &&& self.bytes@ == self.source.spec_bytes()
        &&& self.offsets@.len() == line_offsets(self.bytes@).len()
        &&& forall|i: int|
            0 <= i < self.offsets@.len() ==> self.offsets@[i] as int == #[trigger] line_offsets(
                self.bytes@,
            )[i]
        &&& self.total == line_count(self.bytes@)
    }

    /// The cursor is well formed and every offset in its source fits in a
    /// [`TextSize`].
    pub open spec fn wf(&self) -> bool {
        &&& self.lines_wf()
        &&& self.bytes@.len() <= u32::MAX
    }

    /// The bytes of the cursor's source.
    pub open spec fn b(&self) -> Seq<u8> {
        self.bytes@
    }

    /// Create a cursor over `source`, at line 0.
    pub fn new(source: &'a str) -> (c: Self)
        ensures
            c.lines_wf(),
            source.spec_bytes().len() <= u32::MAX ==> c.wf(),
            c.line == 0,
            c.source == source,
    {
        let bytes = source.as_bytes();
        let mut offsets: Vec<usize> = Vec::new();
        offsets.push(0);
        let mut i: usize = 0;
        proof {
            lemma_nl_offsets(bytes@, 0);
        }
        while i < bytes.len()
            invariant
                i <= bytes@.len(),
                offsets@.len() == nl_offsets(bytes@, i as int).len(),
                forall|j: int|
                    0 <= j < offsets@.len() ==> offsets@[j] as int == #[trigger] nl_offsets(
                        bytes@,
                        i as int,
                    )[j],
            decreases bytes@.len() - i,
        {
            if bytes[i] == 0x0A {
                offsets.push(i + 1);
            }
            i = i + 1;
        }
        let n = bytes.len();
        let total = if n == 0 {
            0
        } else if bytes[n - 1] == 0x0A {
            offsets.len() - 1
        } else {
            offsets.len()
        };
        proof {
            lemma_nl_offsets(bytes@, n as int);
        }
        Cursor { source, bytes, offsets, total, line: 0 }
    }

    /// The full source text.
    pub fn source(&self) -> (r: &'a str)
        ensures
            r == self.source,
    {
        self.source
    }

    /// Whether the cursor is at or past the last line.
    pub fn is_eof(&self) -> (r: bool)
        ensures
            r == (self.line >= self.total),
    {
        self.line >= self.total
    }

    /// Total number of lines.
    pub fn total_lines(&self) -> (r: usize)
        ensures
            r == self.total,
    {
        self.total
    }

    /// Advance by one line.
    pub fn advance(&mut self)
        requires
            old(self).line < usize::MAX,
        ensures
            final(self).line == old(self).line + 1,
            final(self).source == old(self).source,
            final(self).bytes == old(self).bytes,
            final(self).offsets == old(self).offsets,
            final(self).total == old(self).total,
    {
        self.line = self.line + 1;
    }

    /// Bounds `[lo, hi)` of the text of line `idx`.
    pub fn line_bounds(&self, idx: usize) -> (r: (usize, usize))
        requires
            self.lines_wf(),
        ensures
            r.0 == line_lo(self.b(), idx as int),
            r.1 == line_hi(self.b(), idx as int),
            r.0 <= r.1 <= self.b().len(),
    {
        proof {
            lemma_line_bounds(self.b(), idx as int);
        }
        let n = self.offsets.len();
        let lo = if idx < n {
            self.offsets[idx]
        } else {
            self.bytes.len()
        };
        let hi = if idx < n && idx + 1 < n {
            self.offsets[idx + 1] - 1
        } else {
            self.bytes.len()
        };
        (lo, hi)
    }

    /// Text of line `idx` without its newline; `""` past the last line.
    pub fn line_text(&self, idx: usize) -> (r: &'a str)
        requires
            self.lines_wf(),
        ensures
            r.spec_bytes() == self.b().subrange(
                line_lo(self.b(), idx as int),
                line_hi(self.b(), idx as int),
            ),
    {
        proof {
            vstd::utf8::encode_utf8_valid_utf8(self.source@);
            lemma_line_boundaries(self.b(), idx as int);
        }
        let (lo, hi) = self.line_bounds(idx);
        str_slice(self.source, lo, hi)
    }

    /// Text of the current line without its newline.
    pub fn current_line_text(&self) -> (r: &'a str)
        requires
            self.lines_wf(),
        ensures
            r.spec_bytes() == self.b().subrange(
                line_lo(self.b(), self.line as int),
                line_hi(self.b(), self.line as int),
            ),
    {
        self.line_text(self.line)
    }

    /// Text of the current line with leading and trailing whitespace removed.
    pub fn current_trimmed(&self) -> (r: &'a str)
        requires
            self.lines_wf(),
        ensures
            r.spec_bytes() == self.b().subrange(
                tlo(self.b(), self.line as int),
                thi(self.b(), self.line as int),
            ),
    {
        proof {
            vstd::utf8::encode_utf8_valid_utf8(self.source@);
            lemma_line_boundaries(self.b(), self.line as int);
        }
        let (s, e) = self.trimmed_bounds(self.line);
        str_slice(self.source, s, e)
    }

    /// The range from column `start_col` of line `start_line` to column
    /// `end_col` of line `end_line`, each offset truncated to 32 bits.
    pub fn make_range(&self, start_line: usize, start_col: usize, end_line: usize, end_col: usize) -> (r: TextRange)
        requires
            self.wf(),
            start_line < line_offsets(self.b()).len(),
            end_line < line_offsets(self.b()).len(),
            line_offsets(self.b())[start_line as int] + start_col <= usize::MAX,
            line_offsets(self.b())[end_line as int] + end_col <= usize::MAX,
        ensures
            r.lo() == (line_offsets(self.b())[start_line as int] + start_col) as u32,
            r.hi() == (line_offsets(self.b())[end_line as int] + end_col) as u32,
    {
        let a = self.offsets[start_line] + start_col;
        let z = self.offsets[end_line] + end_col;
        TextRange::new(TextSize(a as u32), TextSize(z as u32))
    }

    /// `value` spanning the range that [`Cursor::make_range`] builds.
    pub fn make_spanned(
        &self,
        value: String,
        start_line: usize,
        start_col: usize,
        end_line: usize,
        end_col: usize,
    ) -> (r: Spanned<String>)
        requires
            self.wf(),
            start_line < line_offsets(self.b()).len(),
            end_line < line_offsets(self.b()).len(),
            line_offsets(self.b())[start_line as int] + start_col <= usize::MAX,
            line_offsets(self.b())[end_line as int] + end_col <= usize::MAX,
        ensures
            r.value == value,
            r.range.lo() == (line_offsets(self.b())[start_line as int] + start_col) as u32,
            r.range.hi() == (line_offsets(self.b())[end_line as int] + end_col) as u32,
    {
        Spanned::new(value, self.make_range(start_line, start_col, end_line, end_col))
    }

    /// 0-based (line, column) of byte `offset`: the line is the last one
    /// starting at or before `offset`, the column the distance from its start.
    pub fn offset_to_line_col(&self, offset: usize) -> (r: (usize, usize))
        requires
            self.wf(),
        ensures
            0 <= r.0 < line_offsets(self.b()).len(),
            line_offsets(self.b())[r.0 as int] <= offset,
            r.0 + 1 < line_offsets(self.b()).len() ==> offset < line_offsets(self.b())[r.0 + 1],
            r.1 == offset - line_offsets(self.b())[r.0 as int],
    {
        proof {
            lemma_nl_offsets(self.b(), self.b().len() as int);
        }
        let ghost o = line_offsets(self.b());
        let mut lo: usize = 0;
        let mut hi: usize = self.offsets.len();
        while lo + 1 < hi
            invariant
                self.wf(),
                o == line_offsets(self.b()),
                0 <= lo < hi <= o.len(),
                o.len() >= 1,
                o[lo as int] <= offset,
                hi < o.len() ==> offset < o[hi as int],
                forall|i: int, j: int| 0 <= i < j < o.len() ==> o[i] < o[j],
            decreases hi - lo,
        {
            let mid = lo + (hi - lo) / 2;
            if self.offsets[mid] <= offset {
                lo = mid;
            } else {
                hi = mid;
            }
        }
        (lo, offset - self.offsets[lo])
    }

    /// Position of the bracket closing the one at byte `open_pos`, with `()`,
    /// `[]` and `{}` nested together.
    pub fn find_matching_close(&self, open_pos: usize) -> (r: Option<usize>)
        requires
            self.wf(),
            open_pos <= self.b().len(),
            is_char_boundary(self.b(), open_pos as int),
        ensures
            r matches Some(c) ==> Some(c as int) == any_close_from(self.b(), open_pos as int, 0),
            r is None ==> any_close_from(self.b(), open_pos as int, 0) is None,
    {
        find_matching_close(self.bytes, open_pos)
    }

    /// Bounds of the trimmed text of line `idx`.
    pub fn trimmed_bounds(&self, idx: usize) -> (r: (usize, usize))
        requires
            self.lines_wf(),
        ensures
            r.0 == tlo(self.b(), idx as int),
            r.1 == thi(self.b(), idx as int),
            r.0 <= r.1 <= self.b().len(),
    {
        proof {
            lemma_line_bounds(self.b(), idx as int);
        }
        let (lo, hi) = self.line_bounds(idx);
        trim_exec(self.bytes, lo, hi)
    }

    /// Whether line `idx` is blank.
    pub fn is_blank_line(&self, idx: usize) -> (r: bool)
        requires
            self.lines_wf(),
        ensures
            r == is_blank(self.b(), idx as int),
    {
        let (s, e) = self.trimmed_bounds(idx);
        s == e
    }

    /// Whether the current line is blank.
    pub fn current_is_blank(&self) -> (r: bool)
        requires
            self.lines_wf(),
        ensures
            r == is_blank(self.b(), self.line as int),
    {
        self.is_blank_line(self.line)
    }

    /// Leading-whitespace byte count of line `idx`.
    pub fn line_indent(&self, idx: usize) -> (r: usize)
        requires
            self.wf(),
        ensures
            r == tlo(self.b(), idx as int) - line_lo(self.b(), idx as int),
    {
        proof {
            lemma_line_bounds(self.b(), idx as int);
        }
        let (lo, hi) = self.line_bounds(idx);
        let s = skip_ws_exec(self.bytes, lo, hi);
        s - lo
    }

    /// Leading-whitespace byte count of the current line.
    pub fn current_indent(&self) -> (r: usize)
        requires
            self.wf(),
        ensures
            r == tlo(self.b(), self.line as int) - line_lo(self.b(), self.line as int),
    {
        self.line_indent(self.line)
    }

    /// Visual indentation (tabs to multiples of 8) of the current line.
    pub fn current_indent_columns(&self) -> (r: u64)
        requires
            self.wf(),
        ensures
            r == indent_cols(self.b(), self.line as int),
    {
        let (lo, hi) = self.line_bounds(self.line);
        indent_columns_exec(self.bytes, lo, hi)
    }

    /// Range of the trimmed text of the current line.
    pub fn current_trimmed_range(&self) -> (r: TextRange)
        requires
            self.wf(),
        ensures
            r == trimmed_range(self.b(), self.line as int),
            r.lo() == tlo(self.b(), self.line as int),
            r.hi() == thi(self.b(), self.line as int),
    {
        let (s, e) = self.trimmed_bounds(self.line);
        TextRange::from_offset_len(s, e - s)
    }

    /// Skip blank lines starting at the current line.
    pub fn skip_blank_lines(&mut self)
        requires
            old(self).lines_wf(),
        ensures
            final(self).lines_wf(),
            final(self).line == first_nonblank_from(old(self).b(), old(self).line as int),
            old(self).line <= final(self).line,
            forall|k: int| old(self).line <= k < final(self).line ==> #[trigger] is_blank(final(self).b(), k),
            final(self).line < final(self).total ==> !is_blank(final(self).b(), final(self).line as int),
            old(self).line <= old(self).total ==> final(self).line <= final(self).total,
            final(self).source == old(self).source,
            final(self).bytes == old(self).bytes,
            final(self).offsets == old(self).offsets,
            final(self).total == old(self).total,
    {
        while self.line < self.total && self.current_is_blank()
            invariant
                self.lines_wf(),
                old(self).line <= self.line,
                old(self).line <= old(self).total ==> self.line <= self.total,
                forall|k: int| old(self).line <= k < self.line ==> #[trigger] is_blank(self.b(), k),
                self.source == old(self).source,
                self.bytes == old(self).bytes,
                self.offsets == old(self).offsets,
                self.total == old(self).total,
                first_nonblank_from(self.b(), self.line as int) == first_nonblank_from(
                    old(self).b(),
                    old(self).line as int,
                ),
            decreases self.total - self.line,
        {
            self.line = self.line + 1;
        }
        proof {
            lemma_first_nonblank_bounds(self.b(), self.line as int);
        }
    }

    /// Range `[start, end)` where `end` is the end of the trimmed text of the
    /// last non-blank line before the cursor (down to line `from_line`).
    pub fn span_back_from_cursor(&self, start: usize, from_line: usize) -> (r: TextRange)
        requires
            self.wf(),
            from_line <= self.line,
            start <= u32::MAX,
        ensures
            last_nonblank_before(self.b(), from_line as int, self.line as int) >= from_line ==> r
                == mk_range(
                start as int,
                thi(self.b(), last_nonblank_before(self.b(), from_line as int, self.line as int)),
            ),
            last_nonblank_before(self.b(), from_line as int, self.line as int) < from_line ==> r
                == mk_range(start as int, start as int),
    {
        let mut k = self.line;
        while k > from_line
            invariant
                self.wf(),
                from_line <= k <= self.line,
                last_nonblank_before(self.b(), from_line as int, self.line as int)
                    == last_nonblank_before(self.b(), from_line as int, k as int),
            decreases k,
        {
            if !self.is_blank_line(k - 1) {
                proof {
                    lemma_line_bounds(self.b(), (k - 1) as int);
                }
                let (_, e) = self.trimmed_bounds(k - 1);
                return TextRange::new(TextSize(start as u32), TextSize(e as u32));
            }
            k = k - 1;
        }
        TextRange::new(TextSize(start as u32), TextSize(start as u32))
    }

    /// The range `[lo, hi)`.
    pub fn range(&self, lo: usize, hi: usize) -> (r: TextRange)
        requires
            lo <= hi <= u32::MAX,
        ensures
            r == mk_range(lo as int, hi as int),
    {
        TextRange::from_offset_len(lo, hi - lo)
    }

    /// The whole source `[0, len)`.
    pub fn full_range(&self) -> (r: TextRange)
        requires
            self.wf(),
        ensures
            r == mk_range(0, self.b().len() as int),
    {
        TextRange::from_offset_len(0, self.bytes.len())
    }
}

} // verus!
