//! Slice validity of the ranges the parsers produce: a range is valid when
//! it lies inside the source, below a bound, and both its ends are character
//! boundaries, so that it can be sliced out of the source text.
use vstd::prelude::*;
use vstd::utf8::{valid_utf8, is_char_boundary};
use crate::cursor::mk_range;
use crate::lexical::{trim_lo, trim_hi, lemma_skip_ws_bounds, lemma_skip_ws_back_bounds};
use crate::styles::utils::{comma_parts_from, depth_after, split_names_from, trimmed_piece};
use crate::text::TextRange;
use crate::utf8::{lemma_ascii_boundary, lemma_trim_boundary};

verus! {

broadcast use vstd::seq::group_seq_axioms;

/// `r` is a slice of `b` ending at or before `u`, between character
/// boundaries.
pub open spec fn sok(b: Seq<u8>, r: TextRange, u: int) -> bool {
    &&& 0 <= r.lo() <= r.hi() <= u
    &&& r.hi() <= b.len()
    &&& is_char_boundary(b, r.lo())
    &&& is_char_boundary(b, r.hi())
}

/// [`sok`] for an optional range.
pub open spec fn osok(b: Seq<u8>, o: Option<TextRange>, u: int) -> bool {
    match o {
        Some(r) => sok(b, r, u),
        None => true,
    }
}

/// Every range of `v` is [`sok`].
pub open spec fn all_sok(b: Seq<u8>, v: Seq<TextRange>, u: int) -> bool {
    forall|i: int| 0 <= i < v.len() ==> sok(b, #[trigger] v[i], u)
}

/// A range built from boundary positions is valid.
pub proof fn lemma_mk_sok(b: Seq<u8>, lo: int, hi: int, u: int)
    requires
        0 <= lo <= hi <= u,
        hi <= b.len() <= u32::MAX,
        is_char_boundary(b, lo),
        is_char_boundary(b, hi),
    ensures
        sok(b, mk_range(lo, hi), u),
        mk_range(lo, hi).lo() == lo,
        mk_range(lo, hi).hi() == hi,
{
}

/// The segments of a comma split between boundaries start and end on
/// boundaries.
pub proof fn lemma_comma_parts_boundaries(b: Seq<u8>, i: int, e: int, d: int, start: int)
    requires
        valid_utf8(b),
        0 <= start <= i <= e <= b.len(),
        is_char_boundary(b, start),
        is_char_boundary(b, e),
    ensures
        forall|k: int|
            0 <= k < comma_parts_from(b, i, e, d, start).len() ==> ({
                let p = #[trigger] comma_parts_from(b, i, e, d, start)[k];
                &&& is_char_boundary(b, p.0)
                &&& is_char_boundary(b, p.1)
                &&& start <= p.0 <= p.1 <= e
            }),
    decreases e - i,
{
    if i < e {
        if b[i] == 0x2C && d == 0 {
            lemma_ascii_boundary(b, i);
            lemma_comma_parts_boundaries(b, i + 1, e, d, i + 1);
            let rest = comma_parts_from(b, i + 1, e, d, i + 1);
            let all = comma_parts_from(b, i, e, d, start);
            assert(all == seq![(start, i)] + rest);
            assert forall|k: int| 0 <= k < all.len() implies {
                let p = #[trigger] all[k];
                &&& is_char_boundary(b, p.0)
                &&& is_char_boundary(b, p.1)
                &&& start <= p.0 <= p.1 <= e
            } by {
                if k > 0 {
                    assert(all[k] == rest[k - 1]);
                }
            }
        } else {
            lemma_comma_parts_boundaries(b, i + 1, e, depth_after(d, b[i]), start);
            assert(comma_parts_from(b, i, e, d, start) == comma_parts_from(
                b,
                i + 1,
                e,
                depth_after(d, b[i]),
                start,
            ));
        }
    } else {
        assert(comma_parts_from(b, i, e, d, start) == seq![(start, e)]);
    }
}

/// The pieces of a trimmed segment between boundaries are valid.
pub proof fn lemma_trimmed_piece_sok(b: Seq<u8>, a: int, z: int, u: int)
    requires
        valid_utf8(b),
        0 <= a <= z <= u,
        z <= b.len() <= u32::MAX,
        is_char_boundary(b, a),
        is_char_boundary(b, z),
    ensures
        all_sok(b, trimmed_piece(b, a, z), u),
        forall|i: int|
            0 <= i < trimmed_piece(b, a, z).len() ==> a <= (#[trigger] trimmed_piece(b, a, z)[i]).lo(),
{
    lemma_trim_boundary(b, a, z);
    lemma_skip_ws_bounds(b, a, z);
    lemma_skip_ws_back_bounds(b, trim_lo(b, a, z), z);
    if trim_lo(b, a, z) < trim_hi(b, a, z) {
        lemma_mk_sok(b, trim_lo(b, a, z), trim_hi(b, a, z), u);
    }
}

/// The names of a comma-separated list between boundaries are valid.
pub proof fn lemma_split_names_sok(b: Seq<u8>, i: int, e: int, start: int, u: int)
    requires
        valid_utf8(b),
        0 <= start <= i <= e <= u,
        e <= b.len() <= u32::MAX,
        is_char_boundary(b, start),
        is_char_boundary(b, e),
    ensures
        all_sok(b, split_names_from(b, i, e, start), u),
    decreases e - i,
{
    if i >= e {
        lemma_trimmed_piece_sok(b, start, e, u);
    } else if b[i] == 0x2C {
        lemma_ascii_boundary(b, i);
        lemma_trimmed_piece_sok(b, start, i, u);
        lemma_split_names_sok(b, i + 1, e, i + 1, u);
        let l = trimmed_piece(b, start, i);
        let r = split_names_from(b, i + 1, e, i + 1);
        assert forall|k: int| 0 <= k < (l + r).len() implies sok(b, #[trigger] (l + r)[k], u) by {
            if k < l.len() {
                assert((l + r)[k] == l[k]);
            } else {
                assert((l + r)[k] == r[k - l.len()]);
            }
        }
    } else {
        lemma_split_names_sok(b, i + 1, e, start, u);
    }
}

} // verus!
