//! Facts about UTF-8 character boundaries used to slice source text.
use vstd::prelude::*;
use vstd::utf8::*;
use crate::lexical::{ws_len, ws_len_back, skip_ws, skip_ws_back, trim_lo, trim_hi, lemma_skip_ws_bounds};

verus! {

broadcast use vstd::seq::group_seq_axioms;

/// In valid UTF-8, an in-bounds index is a character boundary exactly when the
/// byte there is not a continuation byte; the end of the sequence is always one.
pub proof fn lemma_boundary_iff_not_continuation(b: Seq<u8>, i: int)
    requires
        valid_utf8(b),
        0 <= i <= b.len(),
    ensures
        i == b.len() ==> is_char_boundary(b, i),
        i < b.len() ==> (is_char_boundary(b, i) <==> !is_continuation_byte(b[i])),
    decreases b.len(),
{
    if i == 0 {
        if b.len() > 0 {
            assert(valid_first_scalar(b));
            assert(valid_leading_and_continuation_bytes_first_codepoint(b));
            assert(!is_continuation_byte(b[0]));
        }
    } else {
        let l = length_of_first_scalar(b);
        let rest = pop_first_scalar(b);
        assert(valid_first_scalar(b));
        assert(1 <= l <= 4);
        assert(l <= b.len());
        assert(rest.len() == b.len() - l);
        assert(valid_utf8(rest));
        assert(is_char_boundary(b, i) == is_char_boundary(rest, i - l));
        if i < l {
            assert(is_continuation_byte(b[i]));
        } else {
            assert(valid_utf8(rest));
            lemma_boundary_iff_not_continuation(rest, i - l);
            if i < b.len() {
                assert(rest[i - l] == b[i]);
            }
        }
    }
}

/// A character boundary of a valid UTF-8 sequence stays one in any prefix that
/// ends at a later boundary.
pub proof fn lemma_boundary_in_prefix(b: Seq<u8>, i: int, j: int)
    requires
        valid_utf8(b),
        0 <= i <= j <= b.len(),
        is_char_boundary(b, i),
        is_char_boundary(b, j),
    ensures
        valid_utf8(b.subrange(0, j)),
        is_char_boundary(b.subrange(0, j), i),
{
    valid_utf8_split(b, j);
    let p = b.subrange(0, j);
    lemma_boundary_iff_not_continuation(b, i);
    lemma_boundary_iff_not_continuation(p, i);
    if i < j {
        assert(p[i] == b[i]);
    }
}

/// Skipping one whitespace character from a character boundary lands on a
/// character boundary.
pub proof fn lemma_ws_step_boundary(b: Seq<u8>, i: int, e: int)
    requires
        valid_utf8(b),
        0 <= i,
        e <= b.len(),
        is_char_boundary(b, i),
        ws_len(b, i, e) > 0,
    ensures
        is_char_boundary(b, i + ws_len(b, i, e)),
{
    let w = ws_len(b, i, e);
    let s = b.subrange(i, b.len() as int);
    valid_utf8_split(b, i);
    assert(s.len() > 0);
    assert(s[0] == b[i]);
    assert(valid_first_scalar(s));
    assert(length_of_first_scalar(s) == w);
    assert(is_char_boundary(pop_first_scalar(s), 0));
    assert(is_char_boundary(s, w));
    if i + w < b.len() {
        lemma_boundary_iff_not_continuation(s, w);
        assert(s[w] == b[i + w]);
        lemma_boundary_iff_not_continuation(b, i + w);
    } else {
        lemma_boundary_iff_not_continuation(b, i + w);
    }
}

/// `skip_ws` from a character boundary lands on a character boundary.
pub proof fn lemma_skip_ws_boundary(b: Seq<u8>, i: int, e: int)
    requires
        valid_utf8(b),
        0 <= i <= e <= b.len(),
        is_char_boundary(b, i),
    ensures
        is_char_boundary(b, skip_ws(b, i, e)),
    decreases e - i,
{
    if i < e && ws_len(b, i, e) > 0 {
        lemma_ws_step_boundary(b, i, e);
        lemma_skip_ws_boundary(b, i + ws_len(b, i, e), e);
    }
}

/// `skip_ws_back` from a character boundary lands on a character boundary.
pub proof fn lemma_skip_ws_back_boundary(b: Seq<u8>, s: int, j: int)
    requires
        valid_utf8(b),
        0 <= s <= j <= b.len(),
        is_char_boundary(b, j),
    ensures
        is_char_boundary(b, skip_ws_back(b, s, j)),
    decreases j - s,
{
    if s < j && ws_len_back(b, s, j) > 0 {
        let w = ws_len_back(b, s, j);
        lemma_boundary_iff_not_continuation(b, j - w);
        lemma_skip_ws_back_boundary(b, s, j - w);
    }
}

/// Trimming `[s, e)` between character boundaries gives character boundaries.
pub proof fn lemma_trim_boundary(b: Seq<u8>, s: int, e: int)
    requires
        valid_utf8(b),
        0 <= s <= e <= b.len(),
        is_char_boundary(b, s),
        is_char_boundary(b, e),
    ensures
        is_char_boundary(b, trim_lo(b, s, e)),
        is_char_boundary(b, trim_hi(b, s, e)),
{
    lemma_skip_ws_boundary(b, s, e);
    lemma_skip_ws_bounds(b, s, e);
    lemma_skip_ws_back_boundary(b, trim_lo(b, s, e), e);
}

/// An index holding an ASCII byte is a character boundary.
pub proof fn lemma_ascii_boundary(b: Seq<u8>, i: int)
    requires
        valid_utf8(b),
        0 <= i < b.len(),
        b[i] < 0x80,
    ensures
        is_char_boundary(b, i),
        is_char_boundary(b, i + 1),
{
    lemma_boundary_iff_not_continuation(b, i);
    let s = b.subrange(i, b.len() as int);
    valid_utf8_split(b, i);
    assert(s[0] == b[i]);
    assert(valid_first_scalar(s));
    assert(length_of_first_scalar(s) == 1);
    assert(is_char_boundary(pop_first_scalar(s), 0));
    assert(is_char_boundary(s, 1));
    if i + 1 < b.len() {
        lemma_boundary_iff_not_continuation(s, 1);
        assert(s[1] == b[i + 1]);
    }
    lemma_boundary_iff_not_continuation(b, i + 1);
}

} // verus!
