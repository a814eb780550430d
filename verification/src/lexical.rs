//! Byte-level lexical primitives over UTF-8 source text: whitespace, trimming,
//! ASCII case folding, literal comparison, and visual indentation.
use vstd::prelude::*;
use vstd::string::StringSliceAdditionalSpecFns;

verus! {

// ---------------------------------------------------------------------------
// Whitespace
// ---------------------------------------------------------------------------

/// `u8::is_ascii_whitespace`: space, tab, line feed, form feed, carriage return.
pub open spec fn is_ascii_ws(c: u8) -> bool {
    c == 0x20 || c == 0x09 || c == 0x0A || c == 0x0C || c == 0x0D
}

/// ASCII bytes that are Unicode `White_Space`: U+0009..=U+000D and U+0020.
pub open spec fn is_ascii_unicode_ws(c: u8) -> bool {
    (0x09 <= c <= 0x0D) || c == 0x20
}

/// Two-byte UTF-8 encodings of `White_Space` characters: U+0085 and U+00A0.
pub open spec fn is_ws2(c0: u8, c1: u8) -> bool {
    c0 == 0xC2 && (c1 == 0x85 || c1 == 0xA0)
}

/// Three-byte UTF-8 encodings of `White_Space` characters: U+1680,
/// U+2000..=U+200A, U+2028, U+2029, U+202F, U+205F and U+3000.
pub open spec fn is_ws3(c0: u8, c1: u8, c2: u8) -> bool {
    ||| (c0 == 0xE1 && c1 == 0x9A && c2 == 0x80)
    ||| (c0 == 0xE2 && c1 == 0x80 && ((0x80 <= c2 <= 0x8A) || c2 == 0xA8 || c2 == 0xA9 || c2 == 0xAF))
    ||| (c0 == 0xE2 && c1 == 0x81 && c2 == 0x9F)
    ||| (c0 == 0xE3 && c1 == 0x80 && c2 == 0x80)
}

/// Byte length of the whitespace character (`char::is_whitespace`) whose
/// UTF-8 encoding starts at `i` and lies inside `[i, e)`; 0 when there is none.
pub open spec fn ws_len(b: Seq<u8>, i: int, e: int) -> int {
    if 0 <= i < e && is_ascii_unicode_ws(b[i]) {
        1
    } else if 0 <= i && i + 1 < e && is_ws2(b[i], b[i + 1]) {
        2
    } else if 0 <= i && i + 2 < e && is_ws3(b[i], b[i + 1], b[i + 2]) {
        3
    } else {
        0
    }
}

/// Byte length of the whitespace character whose encoding ends at `j` and
/// lies inside `[s, j)`; 0 when there is none.
pub open spec fn ws_len_back(b: Seq<u8>, s: int, j: int) -> int {
    if s <= j - 1 && is_ascii_unicode_ws(b[j - 1]) {
        1
    } else if s <= j - 2 && is_ws2(b[j - 2], b[j - 1]) {
        2
    } else if s <= j - 3 && is_ws3(b[j - 3], b[j - 2], b[j - 1]) {
        3
    } else {
        0
    }
}

/// First position at or after `i` (bounded by `e`) where no whitespace
/// character starts: the start of `str::trim_start` applied to `[i, e)`.
pub open spec fn skip_ws(b: Seq<u8>, i: int, e: int) -> int
    decreases e - i,
{
    if i < e && ws_len(b, i, e) > 0 {
        skip_ws(b, i + ws_len(b, i, e), e)
    } else {
        i
    }
}

/// Last position at or before `j` (bounded below by `s`) not preceded by a
/// whitespace character: the end of `str::trim_end` applied to `[s, j)`.
pub open spec fn skip_ws_back(b: Seq<u8>, s: int, j: int) -> int
    decreases j - s,
{
    if s < j && ws_len_back(b, s, j) > 0 {
        skip_ws_back(b, s, j - ws_len_back(b, s, j))
    } else {
        j
    }
}

/// Skipping whitespace forward from `i` stays within `[i, e]`.
pub proof fn lemma_skip_ws_bounds(b: Seq<u8>, i: int, e: int)
    requires
        i <= e,
    ensures
        i <= skip_ws(b, i, e) <= e,
    decreases e - i,
{
    if i < e && ws_len(b, i, e) > 0 {
        lemma_skip_ws_bounds(b, i + ws_len(b, i, e), e);
    }
}

/// Skipping whitespace backward from `j` stays within `[s, j]`.
pub proof fn lemma_skip_ws_back_bounds(b: Seq<u8>, s: int, j: int)
    requires
        s <= j,
    ensures
        s <= skip_ws_back(b, s, j) <= j,
    decreases j - s,
{
    if s < j && ws_len_back(b, s, j) > 0 {
        lemma_skip_ws_back_bounds(b, s, j - ws_len_back(b, s, j));
    }
}

/// Start of `str::trim` of `[s, e)`.
pub open spec fn trim_lo(b: Seq<u8>, s: int, e: int) -> int {
    skip_ws(b, s, e)
}

/// End of `str::trim` of `[s, e)`.
pub open spec fn trim_hi(b: Seq<u8>, s: int, e: int) -> int {
    skip_ws_back(b, skip_ws(b, s, e), e)
}

/// Byte length of the whitespace character starting at `i` (0 if none).
pub fn ws_len_exec(b: &[u8], i: usize, e: usize) -> (r: usize)
    requires
        e <= b@.len(),
    ensures
        r == ws_len(b@, i as int, e as int),
{
    if i < e && ((0x09 <= b[i] && b[i] <= 0x0D) || b[i] == 0x20) {
        1
    } else if i < e && e - i > 1 && b[i] == 0xC2 && (b[i + 1] == 0x85 || b[i + 1] == 0xA0) {
        2
    } else if i < e && e - i > 2 && ((b[i] == 0xE1 && b[i + 1] == 0x9A && b[i + 2] == 0x80) || (
    b[i] == 0xE2 && b[i + 1] == 0x80 && ((0x80 <= b[i + 2] && b[i + 2] <= 0x8A) || b[i + 2]
        == 0xA8 || b[i + 2] == 0xA9 || b[i + 2] == 0xAF)) || (b[i] == 0xE2 && b[i + 1] == 0x81
        && b[i + 2] == 0x9F) || (b[i] == 0xE3 && b[i + 1] == 0x80 && b[i + 2] == 0x80)) {
        3
    } else {
        0
    }
}

/// Byte length of the whitespace character ending at `j` (0 if none).
pub fn ws_len_back_exec(b: &[u8], s: usize, j: usize) -> (r: usize)
    requires
        j <= b@.len(),
    ensures
        r == ws_len_back(b@, s as int, j as int),
{
    if s < j && ((0x09 <= b[j - 1] && b[j - 1] <= 0x0D) || b[j - 1] == 0x20) {
        1
    } else if s < j && j - s >= 2 && b[j - 2] == 0xC2 && (b[j - 1] == 0x85 || b[j - 1] == 0xA0) {
        2
    } else if s < j && j - s >= 3 && ((b[j - 3] == 0xE1 && b[j - 2] == 0x9A && b[j - 1] == 0x80)
        || (b[j - 3] == 0xE2 && b[j - 2] == 0x80 && ((0x80 <= b[j - 1] && b[j - 1] <= 0x8A) || b[j
        - 1] == 0xA8 || b[j - 1] == 0xA9 || b[j - 1] == 0xAF)) || (b[j - 3] == 0xE2 && b[j - 2]
        == 0x81 && b[j - 1] == 0x9F) || (b[j - 3] == 0xE3 && b[j - 2] == 0x80 && b[j - 1] == 0x80)) {
        3
    } else {
        0
    }
}

/// Start of the trimmed text of `[s, e)` (`str::trim_start`).
pub fn skip_ws_exec(b: &[u8], s: usize, e: usize) -> (r: usize)
    requires
        s <= e <= b@.len(),
    ensures
        r == skip_ws(b@, s as int, e as int),
        s <= r <= e,
{
    let mut i = s;
    proof {
        lemma_skip_ws_bounds(b@, s as int, e as int);
    }
    while i < e
        invariant
            s <= i <= e <= b@.len(),
            skip_ws(b@, i as int, e as int) == skip_ws(b@, s as int, e as int),
        ensures
            s <= i <= e,
            skip_ws(b@, i as int, e as int) == i,
            skip_ws(b@, i as int, e as int) == skip_ws(b@, s as int, e as int),
        decreases e - i,
    {
        let k = ws_len_exec(b, i, e);
        if k == 0 {
            break;
        }
        i = i + k;
    }
    i
}

/// End of the trimmed text of `[s, e)` (`str::trim_end`).
pub fn skip_ws_back_exec(b: &[u8], s: usize, e: usize) -> (r: usize)
    requires
        s <= e <= b@.len(),
    ensures
        r == skip_ws_back(b@, s as int, e as int),
        s <= r <= e,
{
    let mut j = e;
    proof {
        lemma_skip_ws_back_bounds(b@, s as int, e as int);
    }
    while j > s
        invariant
            s <= j <= e <= b@.len(),
            skip_ws_back(b@, s as int, j as int) == skip_ws_back(b@, s as int, e as int),
        ensures
            s <= j <= e,
            skip_ws_back(b@, s as int, j as int) == j,
            skip_ws_back(b@, s as int, j as int) == skip_ws_back(b@, s as int, e as int),
        decreases j - s,
    {
        let k = ws_len_back_exec(b, s, j);
        if k == 0 {
            break;
        }
        j = j - k;
    }
    j
}

/// Bounds of `str::trim` applied to `[s, e)`.
pub fn trim_exec(b: &[u8], s: usize, e: usize) -> (r: (usize, usize))
    requires
        s <= e <= b@.len(),
    ensures
        r.0 == trim_lo(b@, s as int, e as int),
        r.1 == trim_hi(b@, s as int, e as int),
        s <= r.0 <= r.1 <= e,
{
    let lo = skip_ws_exec(b, s, e);
    let hi = skip_ws_back_exec(b, lo, e);
    (lo, hi)
}

// ---------------------------------------------------------------------------
// ASCII case and literals
// ---------------------------------------------------------------------------

/// `u8::to_ascii_lowercase`.
pub open spec fn lower(c: u8) -> u8 {
    if 0x41 <= c <= 0x5A {
        (c + 32) as u8
    } else {
        c
    }
}

/// ASCII lowercase of a byte.
pub fn lower_exec(c: u8) -> (r: u8)
    ensures
        r == lower(c),
{
    if 0x41 <= c && c <= 0x5A {
        c + 32
    } else {
        c
    }
}

/// `[s, e)` lowercased (ASCII) equals `lit`.
pub open spec fn eq_lower(b: Seq<u8>, s: int, e: int, lit: Seq<u8>) -> bool {
    e - s == lit.len() && forall|k: int| 0 <= k < lit.len() ==> lower(#[trigger] b[s + k]) == lit[k]
}

/// `[s, e)` equals `lit` byte for byte.
pub open spec fn eq_bytes(b: Seq<u8>, s: int, e: int, lit: Seq<u8>) -> bool {
    e - s == lit.len() && forall|k: int| 0 <= k < lit.len() ==> #[trigger] b[s + k] == lit[k]
}

/// `[s, e)` starts with `lit`.
pub open spec fn starts_with(b: Seq<u8>, s: int, e: int, lit: Seq<u8>) -> bool {
    lit.len() <= e - s && eq_bytes(b, s, s + lit.len(), lit)
}

/// Whether `[s, e)` equals `lit` ignoring ASCII case.
pub fn eq_lower_exec(b: &[u8], s: usize, e: usize, lit: &[u8]) -> (r: bool)
    requires
        s <= e <= b@.len(),
    ensures
        r == eq_lower(b@, s as int, e as int, lit@),
{
    if e - s != lit.len() {
        return false;
    }
    let mut k: usize = 0;
    while k < lit.len()
        invariant
            e - s == lit@.len(),
            s <= e <= b@.len(),
            k <= lit@.len(),
            forall|m: int| 0 <= m < k ==> lower(#[trigger] b@[s + m]) == lit@[m],
        decreases lit@.len() - k,
    {
        if lower_exec(b[s + k]) != lit[k] {
            return false;
        }
        k = k + 1;
    }
    true
}

/// Whether `[s, e)` equals `lit`.
pub fn eq_bytes_exec(b: &[u8], s: usize, e: usize, lit: &[u8]) -> (r: bool)
    requires
        s <= e <= b@.len(),
    ensures
        r == eq_bytes(b@, s as int, e as int, lit@),
{
    if e - s != lit.len() {
        return false;
    }
    let mut k: usize = 0;
    while k < lit.len()
        invariant
            e - s == lit@.len(),
            s <= e <= b@.len(),
            k <= lit@.len(),
            forall|m: int| 0 <= m < k ==> #[trigger] b@[s + m] == lit@[m],
        decreases lit@.len() - k,
    {
        if b[s + k] != lit[k] {
            return false;
        }
        k = k + 1;
    }
    true
}

/// Whether `[s, e)` starts with `lit`.
pub fn starts_with_exec(b: &[u8], s: usize, e: usize, lit: &[u8]) -> (r: bool)
    requires
        s <= e <= b@.len(),
    ensures
        r == starts_with(b@, s as int, e as int, lit@),
{
    if lit.len() > e - s {
        return false;
    }
    eq_bytes_exec(b, s, s + lit.len(), lit)
}

// ---------------------------------------------------------------------------
// Visual indentation
// ---------------------------------------------------------------------------

/// Visual width of the leading spaces and tabs of `[s, e)`, starting at
/// column `col`: a space advances one column, a tab advances to the next
/// multiple of 8, and any other byte ends the indentation.
pub open spec fn columns_from(b: Seq<u8>, s: int, e: int, col: int) -> int
    decreases e - s,
{
    if s < e && b[s] == 0x20 {
        columns_from(b, s + 1, e, col + 1)
    } else if s < e && b[s] == 0x09 {
        columns_from(b, s + 1, e, (col / 8 + 1) * 8)
    } else {
        col
    }
}

/// Visual indentation width of the line `[s, e)`.
pub open spec fn indent_columns(b: Seq<u8>, s: int, e: int) -> int {
    columns_from(b, s, e, 0)
}

/// Each byte of an indentation adds at most 8 columns.
pub proof fn lemma_columns_bound(b: Seq<u8>, s: int, e: int, col: int)
    requires
        0 <= col,
        s <= e,
    ensures
        col <= columns_from(b, s, e, col) <= col + 8 * (e - s),
    decreases e - s,
{
    if s < e && b[s] == 0x20 {
        lemma_columns_bound(b, s + 1, e, col + 1);
    } else if s < e && b[s] == 0x09 {
        lemma_columns_bound(b, s + 1, e, (col / 8 + 1) * 8);
    }
}

/// Visual indentation of `[s, e)` in columns, tabs to the next multiple of 8.
pub fn indent_columns_exec(b: &[u8], s: usize, e: usize) -> (r: u64)
    requires
        s <= e <= b@.len(),
        e - s <= u32::MAX,
    ensures
        r == indent_columns(b@, s as int, e as int),
{
    let mut i = s;
    let mut col: u64 = 0;
    proof {
        lemma_columns_bound(b@, s as int, e as int, 0);
    }
    while i < e
        invariant
            s <= i <= e <= b@.len(),
            e - s <= u32::MAX,
            col <= 8 * (i - s),
            columns_from(b@, i as int, e as int, col as int) == indent_columns(b@, s as int, e as int),
        ensures
            columns_from(b@, i as int, e as int, col as int) == col,
            columns_from(b@, i as int, e as int, col as int) == indent_columns(b@, s as int, e as int),
        decreases e - i,
    {
        if b[i] == 0x20 {
            col = col + 1;
        } else if b[i] == 0x09 {
            col = (col / 8 + 1) * 8;
        } else {
            break;
        }
        i = i + 1;
    }
    col
}

/// ASCII-lowercased bytes.
pub open spec fn lower_seq(s: Seq<u8>) -> Seq<u8> {
    Seq::new(s.len(), |i: int| lower(s[i]))
}

/// `eq_lower` compares the lowercased slice with `lit`.
pub proof fn lemma_eq_lower(b: Seq<u8>, s: int, e: int, lit: Seq<u8>)
    requires
        0 <= s <= e <= b.len(),
    ensures
        eq_lower(b, s, e, lit) == (lower_seq(b.subrange(s, e)) == lit),
{
    if eq_lower(b, s, e, lit) {
        assert forall|k: int| 0 <= k < lit.len() implies lower_seq(b.subrange(s, e))[k] == lit[k] by {
            assert(lower(b[s + k]) == lit[k]);
        }
        assert(lower_seq(b.subrange(s, e)) =~= lit);
    }
    if lower_seq(b.subrange(s, e)) == lit {
        assert forall|k: int| 0 <= k < lit.len() implies lower(#[trigger] b[s + k])
            == lit[k] by {
            assert(lower_seq(b.subrange(s, e))[k] == lit[k]);
        }
    }
}

/// `eq_bytes` compares the slice with `lit`.
pub proof fn lemma_eq_bytes(b: Seq<u8>, s: int, e: int, lit: Seq<u8>)
    requires
        0 <= s <= e <= b.len(),
    ensures
        eq_bytes(b, s, e, lit) == (b.subrange(s, e) == lit),
{
    if eq_bytes(b, s, e, lit) {
        assert forall|k: int| 0 <= k < lit.len() implies b.subrange(s, e)[k] == lit[k] by {
            assert(b[s + k] == lit[k]);
        }
        assert(b.subrange(s, e) =~= lit);
    }
    if b.subrange(s, e) == lit {
        assert forall|k: int| 0 <= k < lit.len() implies #[trigger] b[s + k] == lit[k] by {
            assert(b.subrange(s, e)[k] == lit[k]);
        }
    }
}

/// Whether `[s, e)` of `b`, lowercased when `fold` is set, equals `lit`.
pub fn name_is(b: &[u8], s: usize, e: usize, fold: bool, lit: &str) -> (r: bool)
    requires
        s <= e <= b@.len(),
    ensures
        fold ==> r == (lower_seq(b@.subrange(s as int, e as int)) == lit.spec_bytes()),
        !fold ==> r == (b@.subrange(s as int, e as int) == lit.spec_bytes()),
{
    let l = lit.as_bytes();
    proof {
        lemma_eq_lower(b@, s as int, e as int, l@);
        lemma_eq_bytes(b@, s as int, e as int, l@);
    }
    if fold {
        eq_lower_exec(b, s, e, l)
    } else {
        eq_bytes_exec(b, s, e, l)
    }
}

} // verus!
