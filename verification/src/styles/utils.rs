//! Bracket-aware scanning shared by the style parsers.
//!
//! All positions are absolute byte offsets into the docstring.
use vstd::prelude::*;
use crate::lexical::{is_ascii_ws, trim_lo, trim_hi, trim_exec};
use crate::cursor::mk_range;
use crate::text::TextRange;

verus! {

/// `(`, `[`, `{` or `<`.
pub open spec fn is_open_bracket(c: u8) -> bool {
    c == 0x28 || c == 0x5B || c == 0x7B || c == 0x3C
}

/// `)`, `]`, `}` or `>`.
pub open spec fn is_close_bracket(c: u8) -> bool {
    c == 0x29 || c == 0x5D || c == 0x7D || c == 0x3E
}

/// Bracket depth after reading `c` at depth `d` (closing never goes below 0).
pub open spec fn depth_after(d: int, c: u8) -> int {
    if is_open_bracket(c) {
        d + 1
    } else if is_close_bracket(c) {
        if d > 0 {
            d - 1
        } else {
            0
        }
    } else {
        d
    }
}

/// First `:` in `[i, e)` at bracket depth 0, scanning from depth `d` at `i`.
pub open spec fn entry_colon_from(b: Seq<u8>, i: int, e: int, d: int) -> Option<int>
    decreases e - i,
{
    if i >= e {
        None
    } else if b[i] == 0x3A && d == 0 && !is_open_bracket(b[i]) && !is_close_bracket(b[i]) {
        Some(i)
    } else {
        entry_colon_from(b, i + 1, e, depth_after(d, b[i]))
    }
}

/// The entry-separating colon of `[s, e)`: the first `:` outside any
/// `()`, `[]`, `{}` or `<>` brackets.
pub open spec fn entry_colon(b: Seq<u8>, s: int, e: int) -> Option<int> {
    entry_colon_from(b, s, e, 0)
}

/// The entry colon found in `[i, e)`, if any, is a colon inside it.
pub proof fn lemma_entry_colon_bounds(b: Seq<u8>, i: int, e: int, d: int)
    ensures
        entry_colon_from(b, i, e, d) matches Some(c) ==> i <= c < e && b[c] == 0x3A,
    decreases e - i,
{
    if i < e && !(b[i] == 0x3A && d == 0) {
        lemma_entry_colon_bounds(b, i + 1, e, depth_after(d, b[i]));
    }
}

/// Position of the entry-separating colon in `[s, e)`, if any.
pub fn find_entry_colon(b: &[u8], s: usize, e: usize) -> (r: Option<usize>)
    requires
        s <= e <= b@.len(),
    ensures
        r matches Some(c) ==> Some(c as int) == entry_colon(b@, s as int, e as int),
        r is None ==> entry_colon(b@, s as int, e as int) is None,
        r matches Some(c) ==> s <= c < e && b@[c as int] == 0x3A,
{
    proof {
        lemma_entry_colon_bounds(b@, s as int, e as int, 0);
    }
    let mut depth: u64 = 0;
    let mut i = s;
    while i < e
        invariant
            s <= i <= e <= b@.len(),
            depth <= i - s,
            entry_colon_from(b@, i as int, e as int, depth as int) == entry_colon(
                b@,
                s as int,
                e as int,
            ),
        decreases e - i,
    {
        let c = b[i];
        if c == 0x28 || c == 0x5B || c == 0x7B || c == 0x3C {
            depth = depth + 1;
        } else if c == 0x29 || c == 0x5D || c == 0x7D || c == 0x3E {
            if depth > 0 {
                depth = depth - 1;
            }
        } else if c == 0x3A && depth == 0 {
            return Some(i);
        }
        i = i + 1;
    }
    None
}

/// Segments of `[i, e)` split at commas outside brackets, continuing a
/// segment that started at `start` with bracket depth `d` at `i`.  Each
/// segment is `(start, end)`.
pub open spec fn comma_parts_from(b: Seq<u8>, i: int, e: int, d: int, start: int) -> Seq<(int, int)>
    decreases e - i,
{
    if i >= e {
        seq![(start, e)]
    } else if b[i] == 0x2C && d == 0 {
        seq![(start, i)] + comma_parts_from(b, i + 1, e, d, i + 1)
    } else {
        comma_parts_from(b, i + 1, e, depth_after(d, b[i]), start)
    }
}

/// `[s, e)` split by top-level commas (respecting `()`, `[]`, `{}` and `<>`).
pub open spec fn comma_parts(b: Seq<u8>, s: int, e: int) -> Seq<(int, int)> {
    comma_parts_from(b, s, e, 0, s)
}

/// Each comma-separated segment is a well-formed part of `[start, e]`.
pub proof fn lemma_comma_parts_bounds(b: Seq<u8>, i: int, e: int, d: int, start: int)
    requires
        start <= i <= e,
    ensures
        forall|k: int|
            0 <= k < comma_parts_from(b, i, e, d, start).len() ==> start <= (
            #[trigger] comma_parts_from(b, i, e, d, start)[k]).0 <= comma_parts_from(
                b,
                i,
                e,
                d,
                start,
            )[k].1 <= e,
    decreases e - i,
{
    if i < e {
        if b[i] == 0x2C && d == 0 {
            lemma_comma_parts_bounds(b, i + 1, e, d, i + 1);
            let rest = comma_parts_from(b, i + 1, e, d, i + 1);
            let all = comma_parts_from(b, i, e, d, start);
            assert(all == seq![(start, i)] + rest);
            assert forall|k: int| 0 <= k < all.len() implies start <= (#[trigger] all[k]).0 <= all[k].1 <= e by {
                if k > 0 {
                    assert(all[k] == rest[k - 1]);
                }
            }
        } else {
            lemma_comma_parts_bounds(b, i + 1, e, depth_after(d, b[i]), start);
            assert(comma_parts_from(b, i, e, d, start) == comma_parts_from(
                b,
                i + 1,
                e,
                depth_after(d, b[i]),
                start,
            ));
        }
    } else {
        assert(comma_parts_from(b, i, e, d, start) == seq![(start, e)]);
    }
}

/// The segments from `start` tile `[start, e)`: the first starts at `start`,
/// the last ends at `e`, and each other one ends at a comma right before the
/// next one starts.
proof fn lemma_comma_parts_tile(b: Seq<u8>, i: int, e: int, d: int, start: int)
    requires
        start <= i <= e,
    ensures
        ({
            let ps = comma_parts_from(b, i, e, d, start);
            &&& ps.len() >= 1
            &&& ps[0].0 == start
            &&& ps[ps.len() - 1].1 == e
            &&& forall|k: int|
                0 <= k < ps.len() - 1 ==> b[(#[trigger] ps[k]).1] == 0x2C && ps[k + 1].0 == ps[k].1 + 1
        }),
    decreases e - i,
{
    if i < e {
        if b[i] == 0x2C && d == 0 {
            lemma_comma_parts_tile(b, i + 1, e, d, i + 1);
            let rest = comma_parts_from(b, i + 1, e, d, i + 1);
            let all = comma_parts_from(b, i, e, d, start);
            assert(all == seq![(start, i)] + rest);
            assert forall|k: int| 0 <= k < all.len() - 1 implies b[(#[trigger] all[k]).1] == 0x2C
                && all[k + 1].0 == all[k].1 + 1 by {
                if k > 0 {
                    assert(all[k] == rest[k - 1]);
                    assert(all[k + 1] == rest[k]);
                }
            }
        } else {
            lemma_comma_parts_tile(b, i + 1, e, depth_after(d, b[i]), start);
        }
    }
}

/// Law: the top-level comma split of `[s, e)` tiles it. The first segment
/// starts at `s`, the last ends at `e`, and consecutive segments are
/// separated by exactly one comma, so the segments joined with `,` give back
/// `[s, e)`.
pub proof fn law_comma_parts_tile(b: Seq<u8>, s: int, e: int)
    requires
        s <= e,
    ensures
        comma_parts(b, s, e).len() >= 1,
        comma_parts(b, s, e)[0].0 == s,
        comma_parts(b, s, e)[comma_parts(b, s, e).len() - 1].1 == e,
        forall|k: int|
            0 <= k < comma_parts(b, s, e).len() - 1 ==> b[(#[trigger] comma_parts(b, s, e)[k]).1] == 0x2C
                && comma_parts(b, s, e)[k + 1].0 == comma_parts(b, s, e)[k].1 + 1,
{
    lemma_comma_parts_tile(b, s, e, 0, s);
}

/// Split `[s, e)` by top-level commas into `(start, end)` segments.
pub fn split_comma_parts(b: &[u8], s: usize, e: usize) -> (r: Vec<(usize, usize)>)
    requires
        s <= e <= b@.len(),
    ensures
        r@.len() == comma_parts(b@, s as int, e as int).len(),
        forall|k: int|
            0 <= k < r@.len() ==> (r@[k].0 as int, r@[k].1 as int) == #[trigger] comma_parts(
                b@,
                s as int,
                e as int,
            )[k],
        forall|k: int| 0 <= k < r@.len() ==> s <= #[trigger] r@[k].0 <= r@[k].1 <= e,
{
    let mut parts: Vec<(usize, usize)> = Vec::new();
    let mut depth: u64 = 0;
    let mut start = s;
    let mut i = s;
    let ghost whole = comma_parts(b@, s as int, e as int);
    proof {
        lemma_comma_parts_bounds(b@, s as int, e as int, 0, s as int);
    }
    while i < e
        invariant
            s <= start <= i <= e <= b@.len(),
            depth <= i - s,
            whole == comma_parts(b@, s as int, e as int),
            forall|k: int| 0 <= k < whole.len() ==> s <= (#[trigger] whole[k]).0 <= whole[k].1 <= e,
            parts@.len() + comma_parts_from(b@, i as int, e as int, depth as int, start as int).len()
                == whole.len(),
            forall|k: int|
                0 <= k < parts@.len() ==> (parts@[k].0 as int, parts@[k].1 as int) == #[trigger] whole[k],
            forall|k: int|
                0 <= k < comma_parts_from(b@, i as int, e as int, depth as int, start as int).len()
                    ==> #[trigger] comma_parts_from(b@, i as int, e as int, depth as int, start as int)[k]
                    == whole[parts@.len() + k],
        decreases e - i,
    {
        let c = b[i];
        if c == 0x2C && depth == 0 {
            let ghost tail = comma_parts_from(b@, i + 1, e as int, depth as int, i + 1);
            assert(comma_parts_from(b@, i as int, e as int, depth as int, start as int) == seq![
                (start as int, i as int),
            ] + tail);
            assert(comma_parts_from(b@, i as int, e as int, depth as int, start as int)[0] == (
            start as int, i as int));
            parts.push((start, i));
            assert forall|k: int| 0 <= k < tail.len() implies #[trigger] tail[k] == whole[parts@.len()
                + k] by {
                assert(comma_parts_from(b@, i as int, e as int, depth as int, start as int)[k + 1]
                    == tail[k]);
            }
            start = i + 1;
        } else if c == 0x28 || c == 0x5B || c == 0x7B || c == 0x3C {
            depth = depth + 1;
        } else if c == 0x29 || c == 0x5D || c == 0x7D || c == 0x3E {
            if depth > 0 {
                depth = depth - 1;
            }
        }
        i = i + 1;
    }
    assert(comma_parts_from(b@, i as int, e as int, depth as int, start as int)[0] == (
    start as int, e as int));
    parts.push((start, e));
    assert forall|k: int| 0 <= k < parts@.len() implies s <= #[trigger] parts@[k].0 <= parts@[k].1 <= e by {
        assert((parts@[k].0 as int, parts@[k].1 as int) == whole[k]);
    }
    parts
}

/// Matching closer of the opener `open` (bracket kinds counted separately):
/// scanning `[i, e)` at nesting `d` of that kind, the position where the
/// nesting returns to 0.
pub open spec fn same_kind_close_from(b: Seq<u8>, i: int, e: int, open: u8, close: u8, d: int) -> Option<int>
    decreases e - i,
{
    if i >= e {
        None
    } else if b[i] == open {
        same_kind_close_from(b, i + 1, e, open, close, d + 1)
    } else if b[i] == close {
        if d - 1 == 0 {
            Some(i)
        } else {
            same_kind_close_from(b, i + 1, e, open, close, d - 1)
        }
    } else {
        same_kind_close_from(b, i + 1, e, open, close, d)
    }
}

/// The closer matching an opener byte.
pub open spec fn closer_of(c: u8) -> u8 {
    if c == 0x28 {
        0x29
    } else if c == 0x5B {
        0x5D
    } else if c == 0x7B {
        0x7D
    } else {
        0x3E
    }
}

/// Matching close bracket (same bracket kind) for the opener at `p` in `[p, e)`.
pub open spec fn matching_close_in(b: Seq<u8>, p: int, e: int) -> Option<int> {
    if is_open_bracket(b[p]) {
        same_kind_close_from(b, p + 1, e, b[p], closer_of(b[p]), 1)
    } else {
        None
    }
}

/// The matching closer found from `i`, if any, is a closer inside `[i, e)`.
pub proof fn lemma_same_kind_close_bounds(b: Seq<u8>, i: int, e: int, open: u8, close: u8, d: int)
    ensures
        same_kind_close_from(b, i, e, open, close, d) matches Some(c) ==> i <= c < e && b[c] == close,
    decreases e - i,
{
    if i < e {
        if b[i] == open {
            lemma_same_kind_close_bounds(b, i + 1, e, open, close, d + 1);
        } else if b[i] == close {
            if d - 1 != 0 {
                lemma_same_kind_close_bounds(b, i + 1, e, open, close, d - 1);
            }
        } else {
            lemma_same_kind_close_bounds(b, i + 1, e, open, close, d);
        }
    }
}

/// Position of the bracket closing the opener at `p`, looking only in `[p, e)`.
pub fn find_matching_close_in(b: &[u8], p: usize, e: usize) -> (r: Option<usize>)
    requires
        p < e <= b@.len(),
    ensures
        r matches Some(c) ==> Some(c as int) == matching_close_in(b@, p as int, e as int),
        r is None ==> matching_close_in(b@, p as int, e as int) is None,
        r matches Some(c) ==> p < c < e,
{
    let open = b[p];
    let close: u8 = if open == 0x28 {
        0x29
    } else if open == 0x5B {
        0x5D
    } else if open == 0x7B {
        0x7D
    } else if open == 0x3C {
        0x3E
    } else {
        return None;
    };
    proof {
        lemma_same_kind_close_bounds(b@, p + 1, e as int, open, close, 1);
    }
    let mut depth: u64 = 1;
    let mut i = p + 1;
    while i < e
        invariant
            p < i <= e <= b@.len(),
            1 <= depth <= i - p,
            open == b@[p as int],
            close == closer_of(open),
            is_open_bracket(open),
            same_kind_close_from(b@, i as int, e as int, open, close, depth as int)
                == matching_close_in(b@, p as int, e as int),
        decreases e - i,
    {
        if b[i] == open {
            depth = depth + 1;
        } else if b[i] == close {
            if depth - 1 == 0 {
                return Some(i);
            }
            depth = depth - 1;
        }
        i = i + 1;
    }
    None
}

/// Closing bracket for the bracket at `open_pos`, counting `()`, `[]` and `{}`
/// together, scanning from `i` at depth `d` to the end of the input.
pub open spec fn any_close_from(b: Seq<u8>, i: int, d: int) -> Option<int>
    decreases b.len() - i,
{
    if i >= b.len() {
        None
    } else if b[i] == 0x28 || b[i] == 0x5B || b[i] == 0x7B {
        any_close_from(b, i + 1, d + 1)
    } else if b[i] == 0x29 || b[i] == 0x5D || b[i] == 0x7D {
        if d - 1 == 0 {
            Some(i)
        } else {
            any_close_from(b, i + 1, d - 1)
        }
    } else {
        any_close_from(b, i + 1, d)
    }
}

/// The matching closer found from `i`, if any, is a closer inside the input.
pub proof fn lemma_any_close_bounds(b: Seq<u8>, i: int, d: int)
    ensures
        any_close_from(b, i, d) matches Some(c) ==> i <= c < b.len() && (b[c] == 0x29 || b[c]
            == 0x5D || b[c] == 0x7D),
    decreases b.len() - i,
{
    if i < b.len() {
        if b[i] == 0x28 || b[i] == 0x5B || b[i] == 0x7B {
            lemma_any_close_bounds(b, i + 1, d + 1);
        } else if b[i] == 0x29 || b[i] == 0x5D || b[i] == 0x7D {
            if d - 1 != 0 {
                lemma_any_close_bounds(b, i + 1, d - 1);
            }
        } else {
            lemma_any_close_bounds(b, i + 1, d);
        }
    }
}

/// Matching closing bracket for the opening bracket at `open_pos`, counting
/// `()`, `[]` and `{}` nesting together, anywhere up to the end of input.
pub fn find_matching_close(b: &[u8], open_pos: usize) -> (r: Option<usize>)
    requires
        open_pos <= b@.len() <= u32::MAX,
    ensures
        r matches Some(c) ==> Some(c as int) == any_close_from(b@, open_pos as int, 0),
        r is None ==> any_close_from(b@, open_pos as int, 0) is None,
        r matches Some(c) ==> open_pos <= c < b@.len(),
{
    proof {
        lemma_any_close_bounds(b@, open_pos as int, 0);
    }
    let mut depth: i64 = 0;
    let mut i = open_pos;
    while i < b.len()
        invariant
            open_pos <= i <= b@.len() <= u32::MAX,
            -(i - open_pos) <= depth <= i - open_pos,
            any_close_from(b@, i as int, depth as int) == any_close_from(b@, open_pos as int, 0),
        decreases b@.len() - i,
    {
        let c = b[i];
        if c == 0x28 || c == 0x5B || c == 0x7B {
            depth = depth + 1;
        } else if c == 0x29 || c == 0x5D || c == 0x7D {
            depth = depth - 1;
            if depth == 0 {
                return Some(i);
            }
        }
        i = i + 1;
    }
    None
}

/// First opening bracket in `[i, e)` whose preceding byte is ASCII whitespace.
pub open spec fn bracket_after_ws(b: Seq<u8>, i: int, e: int) -> Option<int>
    decreases e - i,
{
    if i >= e {
        None
    } else if is_open_bracket(b[i]) && is_ascii_ws(b[i - 1]) {
        Some(i)
    } else {
        bracket_after_ws(b, i + 1, e)
    }
}

/// The bracket found in `[i, e)`, if any, is an opening bracket inside it.
pub proof fn lemma_bracket_after_ws_bounds(b: Seq<u8>, i: int, e: int)
    ensures
        bracket_after_ws(b, i, e) matches Some(p) ==> i <= p < e && is_open_bracket(b[p]),
    decreases e - i,
{
    if i < e && !(is_open_bracket(b[i]) && is_ascii_ws(b[i - 1])) {
        lemma_bracket_after_ws_bounds(b, i + 1, e);
    }
}

/// First opening bracket in `[i, e)` preceded by ASCII whitespace.
pub fn find_bracket_after_ws(b: &[u8], i: usize, e: usize) -> (r: Option<usize>)
    requires
        1 <= i,
        e <= b@.len(),
    ensures
        r matches Some(p) ==> Some(p as int) == bracket_after_ws(b@, i as int, e as int),
        r is None ==> bracket_after_ws(b@, i as int, e as int) is None,
        r matches Some(p) ==> i <= p < e,
{
    proof {
        lemma_bracket_after_ws_bounds(b@, i as int, e as int);
    }
    let mut k = i;
    while k < e
        invariant
            1 <= i <= k,
            e <= b@.len(),
            bracket_after_ws(b@, k as int, e as int) == bracket_after_ws(b@, i as int, e as int),
        decreases e - k,
    {
        let c = b[k];
        let p = b[k - 1];
        if (c == 0x28 || c == 0x5B || c == 0x7B || c == 0x3C) && (p == 0x20 || p == 0x09 || p
            == 0x0A || p == 0x0C || p == 0x0D) {
            return Some(k);
        }
        k = k + 1;
    }
    None
}

/// Trimmed non-empty piece `[a, z)` as a one-element (or empty) sequence.
pub open spec fn trimmed_piece(b: Seq<u8>, a: int, z: int) -> Seq<TextRange> {
    if trim_lo(b, a, z) < trim_hi(b, a, z) {
        seq![mk_range(trim_lo(b, a, z), trim_hi(b, a, z))]
    } else {
        seq![]
    }
}

/// Names of `[i, e)` split at every comma, trimmed, empty ones dropped; the
/// current piece started at `start`.
pub open spec fn split_names_from(b: Seq<u8>, i: int, e: int, start: int) -> Seq<TextRange>
    decreases e - i,
{
    if i >= e {
        trimmed_piece(b, start, e)
    } else if b[i] == 0x2C {
        trimmed_piece(b, start, i) + split_names_from(b, i + 1, e, i + 1)
    } else {
        split_names_from(b, i + 1, e, start)
    }
}

/// Names of `[s, e)` split at every comma, trimmed, empty ones dropped.
pub fn split_names_exec(b: &[u8], s: usize, e: usize) -> (r: Vec<TextRange>)
    requires
        s <= e <= b@.len() <= u32::MAX,
    ensures
        r@ == split_names_from(b@, s as int, e as int, s as int),
{
    let mut out: Vec<TextRange> = Vec::new();
    let mut start = s;
    let mut i = s;
    while i < e
        invariant
            s <= start <= i <= e <= b@.len() <= u32::MAX,
            out@ + split_names_from(b@, i as int, e as int, start as int) == split_names_from(
                b@,
                s as int,
                e as int,
                s as int,
            ),
        decreases e - i,
    {
        if b[i] == 0x2C {
            let ghost before = out@;
            let (a, z) = trim_exec(b, start, i);
            if a < z {
                out.push(TextRange::from_offset_len(a, z - a));
            }
            assert(out@ == before + trimmed_piece(b@, start as int, i as int));
            assert(before + (trimmed_piece(b@, start as int, i as int) + split_names_from(
                b@,
                i + 1,
                e as int,
                i + 1,
            )) =~= out@ + split_names_from(b@, i + 1, e as int, i + 1));
            start = i + 1;
        }
        i = i + 1;
    }
    let ghost before = out@;
    let (a, z) = trim_exec(b, start, e);
    if a < z {
        out.push(TextRange::from_offset_len(a, z - a));
    }
    assert(out@ =~= before + trimmed_piece(b@, start as int, e as int));
    out
}

} // verus!
