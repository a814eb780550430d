//! Properties of the Google-style parse that hold for every input: every
//! range is a slice of the source between character boundaries, and the
//! items come in document order without overlapping.
use vstd::prelude::*;
use vstd::string::StringSliceAdditionalSpecFns;
use vstd::utf8::{valid_utf8, is_char_boundary};
use crate::cursor::{indent_cols, tlo, thi, mk_range, trimmed_range, is_blank, line_count, line_lo, last_nonblank_before, first_nonblank_from, lemma_line_bounds, lemma_line_boundaries, lemma_line_order, all_blank, lemma_first_nonblank_none};
use crate::lexical::{skip_ws, skip_ws_back, trim_lo, trim_hi, eq_bytes, lemma_skip_ws_bounds, lemma_skip_ws_back_bounds, lower_seq};
use crate::styles::google::ast::{GoogleSectionHeader, GoogleSectionBodyV, GoogleArg, GoogleException, GoogleWarning, GoogleAttribute, GoogleMethod, GoogleSeeAlsoItemV, GoogleReturns, GoogleDocstringItemV, GoogleDocstringV, GoogleSectionKind, empty_body, google_kind};
use crate::styles::google::parser::{google_header, section_name_end, google_entry, bracketed_entry, entry_last_line, entry_close_line, entry_bracket, lemma_entry_close_line, lemma_entry_last_line, plain_entry, desc_after_close, strip_optional, optional_scan, skip_commas_back, EntryHeader, push_entry, extend_last, returns_line, body_line, is_entry_body, GoogleStateV, google_step, google_run, google_parse, init_state, content_range, section_range, flush, is_google_parse, extend_opt, to_end};
use crate::styles::ranges::{sok, osok, all_sok, lemma_mk_sok, lemma_comma_parts_boundaries, lemma_split_names_sok};
use crate::styles::utils::{entry_colon, comma_parts, bracket_after_ws, matching_close_in, closer_of, lemma_entry_colon_bounds, lemma_same_kind_close_bounds, lemma_bracket_after_ws_bounds};
use crate::text::TextRange;
use crate::utf8::{lemma_ascii_boundary, lemma_skip_ws_boundary, lemma_skip_ws_back_boundary, lemma_trim_boundary};

verus! {

broadcast use vstd::seq::group_seq_axioms;

// ===========================================================================
// Validity of the parts of a parse
// ===========================================================================

/// The ranges of the section header are valid below `u`.
pub open spec fn header_ok(b: Seq<u8>, h: GoogleSectionHeader, u: int) -> bool {
    sok(b, h.range, u) && sok(b, h.name, u) && osok(b, h.colon, u)
}

/// The ranges of the argument entry are valid below `u`.
pub open spec fn arg_ok(b: Seq<u8>, a: GoogleArg, u: int) -> bool {
    &&& sok(b, a.range, u)
    &&& sok(b, a.name, u)
    &&& osok(b, a.open_bracket, u)
    &&& osok(b, a.ty, u)
    &&& osok(b, a.close_bracket, u)
    &&& osok(b, a.colon, u)
    &&& sok(b, a.description, u)
    &&& osok(b, a.optional, u)
}

/// The ranges of the exception entry are valid below `u`.
pub open spec fn exception_ok(b: Seq<u8>, a: GoogleException, u: int) -> bool {
    sok(b, a.range, u) && sok(b, a.ty, u) && osok(b, a.colon, u) && sok(b, a.description, u)
}

/// The ranges of the warning entry are valid below `u`.
pub open spec fn warning_ok(b: Seq<u8>, a: GoogleWarning, u: int) -> bool {
    sok(b, a.range, u) && sok(b, a.warning_type, u) && osok(b, a.colon, u) && sok(
        b,
        a.description,
        u,
    )
}

/// The ranges of the attribute entry are valid below `u`.
pub open spec fn attribute_ok(b: Seq<u8>, a: GoogleAttribute, u: int) -> bool {
    &&& sok(b, a.range, u)
    &&& sok(b, a.name, u)
    &&& osok(b, a.open_bracket, u)
    &&& osok(b, a.ty, u)
    &&& osok(b, a.close_bracket, u)
    &&& osok(b, a.colon, u)
    &&& sok(b, a.description, u)
}

/// The ranges of the method entry are valid below `u`.
pub open spec fn method_ok(b: Seq<u8>, a: GoogleMethod, u: int) -> bool {
    &&& sok(b, a.range, u)
    &&& sok(b, a.name, u)
    &&& osok(b, a.open_bracket, u)
    &&& osok(b, a.ty, u)
    &&& osok(b, a.close_bracket, u)
    &&& osok(b, a.colon, u)
    &&& sok(b, a.description, u)
}

/// The ranges of the See Also item are valid below `u`.
pub open spec fn see_also_ok(b: Seq<u8>, a: GoogleSeeAlsoItemV, u: int) -> bool {
    sok(b, a.range, u) && all_sok(b, a.names, u) && osok(b, a.colon, u) && osok(
        b,
        a.description,
        u,
    )
}

/// The ranges of the return value are valid below `u`.
pub open spec fn returns_ok(b: Seq<u8>, r: GoogleReturns, u: int) -> bool {
    sok(b, r.range, u) && osok(b, r.return_type, u) && osok(b, r.colon, u) && sok(
        b,
        r.description,
        u,
    )
}

/// Every range of the section body is valid below `u`.
pub open spec fn body_ok(b: Seq<u8>, body: GoogleSectionBodyV, u: int) -> bool {
    match body {
        GoogleSectionBodyV::Args(v) => forall|i: int| 0 <= i < v.len() ==> arg_ok(b, #[trigger] v[i], u),
        GoogleSectionBodyV::KeywordArgs(v) => forall|i: int|
            0 <= i < v.len() ==> arg_ok(b, #[trigger] v[i], u),
        GoogleSectionBodyV::OtherParameters(v) => forall|i: int|
            0 <= i < v.len() ==> arg_ok(b, #[trigger] v[i], u),
        GoogleSectionBodyV::Receives(v) => forall|i: int|
            0 <= i < v.len() ==> arg_ok(b, #[trigger] v[i], u),
        GoogleSectionBodyV::Returns(r) => returns_ok(b, r, u),
        GoogleSectionBodyV::Yields(r) => returns_ok(b, r, u),
        GoogleSectionBodyV::Raises(v) => forall|i: int|
            0 <= i < v.len() ==> exception_ok(b, #[trigger] v[i], u),
        GoogleSectionBodyV::Warns(v) => forall|i: int|
            0 <= i < v.len() ==> warning_ok(b, #[trigger] v[i], u),
        GoogleSectionBodyV::SeeAlso(v) => forall|i: int|
            0 <= i < v.len() ==> see_also_ok(b, #[trigger] v[i], u),
        GoogleSectionBodyV::Attributes(v) => forall|i: int|
            0 <= i < v.len() ==> attribute_ok(b, #[trigger] v[i], u),
        GoogleSectionBodyV::Methods(v) => forall|i: int|
            0 <= i < v.len() ==> method_ok(b, #[trigger] v[i], u),
        GoogleSectionBodyV::Notes(t) | GoogleSectionBodyV::Examples(t) | GoogleSectionBodyV::Todo(t)
        | GoogleSectionBodyV::References(t) | GoogleSectionBodyV::Warnings(t)
        | GoogleSectionBodyV::Attention(t) | GoogleSectionBodyV::Caution(t)
        | GoogleSectionBodyV::Danger(t) | GoogleSectionBodyV::Error(t) | GoogleSectionBodyV::Hint(t)
        | GoogleSectionBodyV::Important(t) | GoogleSectionBodyV::Tip(t)
        | GoogleSectionBodyV::Unknown(t) => sok(b, t, u),
    }
}

/// The range an item covers.
pub open spec fn item_range(it: GoogleDocstringItemV) -> TextRange {
    match it {
        GoogleDocstringItemV::Section(s) => s.range,
        GoogleDocstringItemV::StrayLine(r) => r,
    }
}

/// Every range of the item is valid below `u`.
pub open spec fn item_ok(b: Seq<u8>, it: GoogleDocstringItemV, u: int) -> bool {
    match it {
        GoogleDocstringItemV::Section(s) => sok(b, s.range, u) && header_ok(b, s.header, u)
            && body_ok(b, s.body, u),
        GoogleDocstringItemV::StrayLine(r) => sok(b, r, u),
    }
}

/// Items come in document order and do not overlap.
pub open spec fn items_ordered(items: Seq<GoogleDocstringItemV>) -> bool {
    forall|i: int, j: int|
        0 <= i < j < items.len() ==> item_range(#[trigger] items[i]).hi() <= item_range(
            #[trigger] items[j],
        ).lo()
}

/// Every range of the docstring is a slice of `b`, and the items come in
/// document order without overlapping.
pub open spec fn google_doc_ok(b: Seq<u8>, d: GoogleDocstringV) -> bool {
    let n = b.len() as int;
    &&& sok(b, d.range, n)
    &&& osok(b, d.summary, n)
    &&& osok(b, d.extended_summary, n)
    &&& forall|i: int| 0 <= i < d.items.len() ==> item_ok(b, #[trigger] d.items[i], n)
    &&& items_ordered(d.items)
}

// ===========================================================================
// Bound monotonicity
// ===========================================================================

/// Validity of a body is kept under a larger bound.
pub proof fn lemma_body_ok_mono(b: Seq<u8>, body: GoogleSectionBodyV, u: int, u2: int)
    requires
        body_ok(b, body, u),
        u <= u2,
    ensures
        body_ok(b, body, u2),
{
    match body {
        GoogleSectionBodyV::Args(v) => {
            assert forall|i: int| 0 <= i < v.len() implies arg_ok(b, #[trigger] v[i], u2) by {
                assert(arg_ok(b, v[i], u));
            }
        },
        GoogleSectionBodyV::KeywordArgs(v) => {
            assert forall|i: int| 0 <= i < v.len() implies arg_ok(b, #[trigger] v[i], u2) by {
                assert(arg_ok(b, v[i], u));
            }
        },
        GoogleSectionBodyV::OtherParameters(v) => {
            assert forall|i: int| 0 <= i < v.len() implies arg_ok(b, #[trigger] v[i], u2) by {
                assert(arg_ok(b, v[i], u));
            }
        },
        GoogleSectionBodyV::Receives(v) => {
            assert forall|i: int| 0 <= i < v.len() implies arg_ok(b, #[trigger] v[i], u2) by {
                assert(arg_ok(b, v[i], u));
            }
        },
        GoogleSectionBodyV::Raises(v) => {
            assert forall|i: int| 0 <= i < v.len() implies exception_ok(b, #[trigger] v[i], u2) by {
                assert(exception_ok(b, v[i], u));
            }
        },
        GoogleSectionBodyV::Warns(v) => {
            assert forall|i: int| 0 <= i < v.len() implies warning_ok(b, #[trigger] v[i], u2) by {
                assert(warning_ok(b, v[i], u));
            }
        },
        GoogleSectionBodyV::SeeAlso(v) => {
            assert forall|i: int| 0 <= i < v.len() implies see_also_ok(b, #[trigger] v[i], u2) by {
                assert(see_also_ok(b, v[i], u));
                assert forall|j: int| 0 <= j < v[i].names.len() implies sok(
                    b,
                    #[trigger] v[i].names[j],
                    u2,
                ) by {
                    assert(sok(b, v[i].names[j], u));
                }
            }
        },
        GoogleSectionBodyV::Attributes(v) => {
            assert forall|i: int| 0 <= i < v.len() implies attribute_ok(b, #[trigger] v[i], u2) by {
                assert(attribute_ok(b, v[i], u));
            }
        },
        GoogleSectionBodyV::Methods(v) => {
            assert forall|i: int| 0 <= i < v.len() implies method_ok(b, #[trigger] v[i], u2) by {
                assert(method_ok(b, v[i], u));
            }
        },
        _ => {},
    }
}

/// Validity of an item is kept under a larger bound.
pub proof fn lemma_item_ok_mono(b: Seq<u8>, it: GoogleDocstringItemV, u: int, u2: int)
    requires
        item_ok(b, it, u),
        u <= u2,
    ensures
        item_ok(b, it, u2),
{
    match it {
        GoogleDocstringItemV::Section(s) => lemma_body_ok_mono(b, s.body, u, u2),
        _ => {},
    }
}

// ===========================================================================
// One line
// ===========================================================================

/// Common facts about line `k` of a valid source.
pub open spec fn source_ok(b: Seq<u8>) -> bool {
    valid_utf8(b) && b.len() <= u32::MAX
}

/// The trimmed text of line `k` lies in the source between character
/// boundaries.
pub proof fn lemma_line_facts(b: Seq<u8>, k: int)
    requires
        source_ok(b),
    ensures
        0 <= tlo(b, k) <= thi(b, k) <= b.len(),
        is_char_boundary(b, tlo(b, k)),
        is_char_boundary(b, thi(b, k)),
        sok(b, trimmed_range(b, k), thi(b, k)),
        trimmed_range(b, k).lo() == tlo(b, k),
        trimmed_range(b, k).hi() == thi(b, k),
{
    lemma_line_bounds(b, k);
    lemma_line_boundaries(b, k);
    lemma_mk_sok(b, tlo(b, k), thi(b, k), thi(b, k));
}

/// A section header's ranges lie in its line.
pub proof fn lemma_header_ok(b: Seq<u8>, k: int)
    requires
        source_ok(b),
        google_header(b, k) is Some,
    ensures
        header_ok(b, google_header(b, k)->0, thi(b, k)),
        google_header(b, k)->0.range.lo() == tlo(b, k),
{
    lemma_line_facts(b, k);
    let ts = tlo(b, k);
    let te = thi(b, k);
    if ts < te && b[te - 1] == 0x3A {
        lemma_ascii_boundary(b, te - 1);
        lemma_skip_ws_back_bounds(b, ts, te - 1);
        lemma_skip_ws_back_boundary(b, ts, te - 1);
        lemma_mk_sok(b, te - 1, te, te);
    }
    let ne = section_name_end(b, ts, te).0;
    lemma_mk_sok(b, ts, ne, te);
    lemma_mk_sok(b, ts, te, te);
}

/// `skip_commas_back` from a boundary lands on a boundary.
pub proof fn lemma_skip_commas_back(b: Seq<u8>, s: int, j: int)
    requires
        valid_utf8(b),
        0 <= s <= j <= b.len(),
        is_char_boundary(b, j),
    ensures
        is_char_boundary(b, skip_commas_back(b, s, j)),
        s <= skip_commas_back(b, s, j) <= j,
    decreases j - s,
{
    if s < j && b[j - 1] == 0x2C {
        lemma_ascii_boundary(b, j - 1);
        lemma_skip_commas_back(b, s, j - 1);
    }
}

/// The `optional` scan keeps its positions on boundaries inside `[tl, th)`.
pub proof fn lemma_optional_scan(
    b: Seq<u8>,
    tl: int,
    th: int,
    i: int,
    opt: Option<int>,
    type_end: int,
)
    requires
        valid_utf8(b),
        0 <= tl <= th <= b.len(),
        is_char_boundary(b, tl),
        is_char_boundary(b, th),
        0 <= i,
        tl <= type_end <= th,
        is_char_boundary(b, type_end),
        opt matches Some(o) ==> tl <= o && o + 8 <= th && is_char_boundary(b, o) && is_char_boundary(
            b,
            o + 8,
        ),
    ensures
        ({
            let r = optional_scan(b, comma_parts(b, tl, th), i, opt, type_end);
            &&& tl <= r.1 <= th
            &&& is_char_boundary(b, r.1)
            &&& r.0 matches Some(o) ==> tl <= o && o + 8 <= th && is_char_boundary(b, o)
                && is_char_boundary(b, o + 8)
        }),
    decreases comma_parts(b, tl, th).len() - i,
{
    let parts = comma_parts(b, tl, th);
    if i < parts.len() {
        lemma_comma_parts_boundaries(b, tl, th, 0, tl);
        let a = parts[i].0;
        let z = parts[i].1;
        lemma_trim_boundary(b, a, z);
        lemma_skip_ws_bounds(b, a, z);
        lemma_skip_ws_back_bounds(b, trim_lo(b, a, z), z);
        let sa = trim_lo(b, a, z);
        let sz = trim_hi(b, a, z);
        if eq_bytes(b, sa, sz, "optional".spec_bytes()) {
            reveal_strlit("optional");
            vstd::string::is_ascii_spec_bytes("optional");
            assert(vstd::string::is_ascii("optional"));
            assert(b[sa + 7] == "optional".spec_bytes()[7]);
            lemma_ascii_boundary(b, sa + 7);
            lemma_optional_scan(b, tl, th, i + 1, Some(sa), type_end);
        } else if sa < sz {
            lemma_skip_ws_back_bounds(b, a, z);
            lemma_skip_ws_back_boundary(b, a, z);
            lemma_optional_scan(b, tl, th, i + 1, opt, skip_ws_back(b, a, z));
        } else {
            lemma_optional_scan(b, tl, th, i + 1, opt, type_end);
        }
    }
}

/// `strip_optional` keeps positions on boundaries inside `[tl, th)`.
pub proof fn lemma_strip_optional(b: Seq<u8>, tl: int, th: int)
    requires
        valid_utf8(b),
        0 <= tl <= th <= b.len(),
        is_char_boundary(b, tl),
        is_char_boundary(b, th),
    ensures
        tl <= strip_optional(b, tl, th).0 <= th,
        is_char_boundary(b, strip_optional(b, tl, th).0),
        strip_optional(b, tl, th).1 matches Some(o) ==> tl <= o && o + 8 <= th && is_char_boundary(
            b,
            o,
        ) && is_char_boundary(b, o + 8),
{
    lemma_optional_scan(b, tl, th, 0, None, tl);
    let scan = optional_scan(b, comma_parts(b, tl, th), 0, None, tl);
    if scan.0 is Some {
        lemma_skip_commas_back(b, tl, scan.1);
        let j = skip_commas_back(b, tl, scan.1);
        lemma_skip_ws_back_bounds(b, tl, j);
        lemma_skip_ws_back_boundary(b, tl, j);
    }
}

/// What an entry header guarantees about its ranges on line `k`.
pub open spec fn entry_ok(b: Seq<u8>, h: EntryHeader, k: int) -> bool {
    entry_fields_ok(b, h, tlo(b, k), thi(b, entry_last_line(b, k)))
}

/// The ranges of the entry header are valid below `u`, and its end and its
/// description's end lie at or after `ts`.
pub open spec fn entry_fields_ok(b: Seq<u8>, h: EntryHeader, ts: int, u: int) -> bool {
    &&& sok(b, h.name, u)
    &&& osok(b, h.colon, u)
    &&& sok(b, h.first_description, u)
    &&& ts <= h.range.hi() <= u
    &&& is_char_boundary(b, h.range.hi())
    &&& (h.first_description.lo() != h.first_description.hi() ==> ts <= h.first_description.hi())
    &&& match h.type_info {
        Some(t) => sok(b, t.open_bracket, u) && osok(b, t.ty, u) && sok(b, t.close_bracket, u)
            && osok(b, t.optional, u),
        None => true,
    }
}

/// The description and colon after a closing bracket are valid slices of
/// `[p, te)`.
pub proof fn lemma_desc_after_close(b: Seq<u8>, p: int, te: int)
    requires
        valid_utf8(b),
        0 <= p <= te <= b.len() <= u32::MAX,
        is_char_boundary(b, p),
        is_char_boundary(b, te),
    ensures
        sok(b, desc_after_close(b, p, te).0, te),
        osok(b, desc_after_close(b, p, te).1, te),
        desc_after_close(b, p, te).0.lo() != desc_after_close(b, p, te).0.hi() ==> p
            <= desc_after_close(b, p, te).0.lo(),
        desc_after_close(b, p, te).1 matches Some(c) ==> p <= c.lo() && is_char_boundary(b, c.hi()),
{
    lemma_skip_ws_bounds(b, p, te);
    lemma_skip_ws_boundary(b, p, te);
    let q = skip_ws(b, p, te);
    if q < te && b[q] == 0x3A {
        lemma_ascii_boundary(b, q);
        lemma_skip_ws_bounds(b, q + 1, te);
        lemma_skip_ws_boundary(b, q + 1, te);
        let d = skip_ws(b, q + 1, te);
        lemma_mk_sok(b, q, q + 1, te);
        if d < te {
            lemma_mk_sok(b, d, te, te);
        }
    }
}

/// The ranges of an entry whose bracketed type opens at `p` and closes at
/// `c`, with its description up to `te`, are valid below `te`.
proof fn lemma_bracketed_ok(b: Seq<u8>, ts: int, te: int, p: int, c: int)
    requires
        source_ok(b),
        0 <= ts < p < c < te <= b.len(),
        is_char_boundary(b, ts),
        is_char_boundary(b, te),
        b[p] < 0x80,
        b[c] < 0x80,
    ensures
        entry_fields_ok(b, bracketed_entry(b, ts, te, p, c), ts, te),
{
    lemma_ascii_boundary(b, p);
    lemma_ascii_boundary(b, c);
    lemma_skip_ws_back_bounds(b, ts, p);
    lemma_skip_ws_back_boundary(b, ts, p);
    lemma_mk_sok(b, ts, skip_ws_back(b, ts, p), te);
    lemma_trim_boundary(b, p + 1, c);
    lemma_skip_ws_bounds(b, p + 1, c);
    lemma_skip_ws_back_bounds(b, trim_lo(b, p + 1, c), c);
    let tl = trim_lo(b, p + 1, c);
    let th = trim_hi(b, p + 1, c);
    lemma_strip_optional(b, tl, th);
    let so = strip_optional(b, tl, th);
    if so.0 > tl {
        lemma_mk_sok(b, tl, so.0, te);
    }
    match so.1 {
        Some(o) => lemma_mk_sok(b, o, o + 8, te),
        None => {},
    }
    lemma_mk_sok(b, p, p + 1, te);
    lemma_mk_sok(b, c, c + 1, te);
    lemma_desc_after_close(b, c + 1, te);
}

/// An entry header's ranges lie in the lines it spans.
pub proof fn lemma_entry_ok(b: Seq<u8>, k: int)
    requires
        source_ok(b),
    ensures
        entry_ok(b, google_entry(b, k), k),
        k <= entry_last_line(b, k),
        thi(b, k) <= thi(b, entry_last_line(b, k)),
{
    lemma_line_facts(b, k);
    let ts = tlo(b, k);
    let te = thi(b, k);
    lemma_bracket_after_ws_bounds(b, ts + 1, te);
    let plain = plain_entry(b, ts, te);
    // The plain form.
    lemma_entry_colon_bounds(b, ts, te, 0);
    match entry_colon(b, ts, te) {
        Some(cl) => {
            lemma_ascii_boundary(b, cl);
            lemma_skip_ws_back_bounds(b, ts, cl);
            lemma_skip_ws_back_boundary(b, ts, cl);
            lemma_skip_ws_bounds(b, cl + 1, te);
            lemma_skip_ws_boundary(b, cl + 1, te);
            lemma_mk_sok(b, ts, skip_ws_back(b, ts, cl), te);
            lemma_mk_sok(b, cl, cl + 1, te);
            let d = skip_ws(b, cl + 1, te);
            if d < te {
                lemma_mk_sok(b, d, te, te);
                lemma_mk_sok(b, ts, te, te);
            } else {
                lemma_mk_sok(b, ts, cl + 1, te);
            }
        },
        None => {
            lemma_mk_sok(b, ts, te, te);
        },
    }
    assert(entry_fields_ok(b, plain, ts, te));
    match bracket_after_ws(b, ts + 1, te) {
        Some(p) => {
            lemma_same_kind_close_bounds(b, p + 1, te, b[p], closer_of(b[p]), 1);
            match matching_close_in(b, p, te) {
                Some(c) => {
                    assert(b[c] == closer_of(b[p]));
                    lemma_bracketed_ok(b, ts, te, p, c);
                },
                None => {
                    lemma_entry_close_line(b, p, k + 1);
                    match entry_close_line(b, p, k + 1) {
                        Some((j, c)) => {
                            let tj = thi(b, j);
                            lemma_line_facts(b, j);
                            lemma_line_bounds(b, k);
                            lemma_line_bounds(b, j);
                            lemma_line_order(b, k, j);
                            lemma_same_kind_close_bounds(b, p + 1, tj, b[p], closer_of(b[p]), 1);
                            assert(b[c] == closer_of(b[p]));
                            lemma_bracketed_ok(b, ts, tj, p, c);
                        },
                        None => {},
                    }
                },
            }
        },
        None => {},
    }
}

// ===========================================================================
// Section bodies
// ===========================================================================

/// Extending a range from before line `k` by the line's trimmed text gives a
/// valid range ending at the line.
pub proof fn lemma_extended_ok(b: Seq<u8>, d: TextRange, k: int, u: int)
    requires
        source_ok(b),
        sok(b, d, u),
        u <= tlo(b, k),
    ensures
        sok(b, d.extended(trimmed_range(b, k)), thi(b, k)),
        sok(b, extend_opt(Some(d), trimmed_range(b, k))->0, thi(b, k)),
{
    lemma_line_facts(b, k);
}

/// A range from before line `k` stretched to the end of the line's trimmed
/// text is valid.
pub proof fn lemma_to_end_ok(b: Seq<u8>, d: TextRange, k: int, u: int)
    requires
        source_ok(b),
        sok(b, d, u),
        u <= tlo(b, k),
    ensures
        sok(b, to_end(d, trimmed_range(b, k)), thi(b, k)),
{
    lemma_line_facts(b, k);
}

/// Appending the entry of line `k` keeps the body valid, up to the last
/// line of the entry.
pub proof fn lemma_push_entry_ok(b: Seq<u8>, body: GoogleSectionBodyV, k: int, u: int)
    requires
        source_ok(b),
        body_ok(b, body, u),
        u <= tlo(b, k),
    ensures
        body_ok(b, push_entry(b, body, k), thi(b, entry_last_line(b, k))),
{
    let t = thi(b, entry_last_line(b, k));
    lemma_line_facts(b, k);
    lemma_entry_ok(b, k);
    lemma_body_ok_mono(b, body, u, t);
    let h = google_entry(b, k);
    let end = if h.first_description.lo() != h.first_description.hi() {
        h.first_description.hi()
    } else {
        h.range.hi()
    };
    lemma_mk_sok(b, tlo(b, k), end, t);
    match body {
        GoogleSectionBodyV::Args(v) => {
            let v2 = match push_entry(b, body, k) {
                GoogleSectionBodyV::Args(w) => w,
                _ => v,
            };
            assert forall|i: int| 0 <= i < v2.len() implies arg_ok(b, #[trigger] v2[i], t) by {
                if i < v.len() {
                    assert(v2[i] == v[i]);
                    assert(arg_ok(b, v[i], u));
                }
            }
        },
        GoogleSectionBodyV::KeywordArgs(v) => {
            let v2 = match push_entry(b, body, k) {
                GoogleSectionBodyV::KeywordArgs(w) => w,
                _ => v,
            };
            assert forall|i: int| 0 <= i < v2.len() implies arg_ok(b, #[trigger] v2[i], t) by {
                if i < v.len() {
                    assert(v2[i] == v[i]);
                    assert(arg_ok(b, v[i], u));
                }
            }
        },
        GoogleSectionBodyV::OtherParameters(v) => {
            let v2 = match push_entry(b, body, k) {
                GoogleSectionBodyV::OtherParameters(w) => w,
                _ => v,
            };
            assert forall|i: int| 0 <= i < v2.len() implies arg_ok(b, #[trigger] v2[i], t) by {
                if i < v.len() {
                    assert(v2[i] == v[i]);
                    assert(arg_ok(b, v[i], u));
                }
            }
        },
        GoogleSectionBodyV::Receives(v) => {
            let v2 = match push_entry(b, body, k) {
                GoogleSectionBodyV::Receives(w) => w,
                _ => v,
            };
            assert forall|i: int| 0 <= i < v2.len() implies arg_ok(b, #[trigger] v2[i], t) by {
                if i < v.len() {
                    assert(v2[i] == v[i]);
                    assert(arg_ok(b, v[i], u));
                }
            }
        },
        GoogleSectionBodyV::Raises(v) => {
            let v2 = match push_entry(b, body, k) {
                GoogleSectionBodyV::Raises(w) => w,
                _ => v,
            };
            assert forall|i: int| 0 <= i < v2.len() implies exception_ok(b, #[trigger] v2[i], t) by {
                if i < v.len() {
                    assert(v2[i] == v[i]);
                    assert(exception_ok(b, v[i], u));
                }
            }
        },
        GoogleSectionBodyV::Warns(v) => {
            let v2 = match push_entry(b, body, k) {
                GoogleSectionBodyV::Warns(w) => w,
                _ => v,
            };
            assert forall|i: int| 0 <= i < v2.len() implies warning_ok(b, #[trigger] v2[i], t) by {
                if i < v.len() {
                    assert(v2[i] == v[i]);
                    assert(warning_ok(b, v[i], u));
                }
            }
        },
        GoogleSectionBodyV::Attributes(v) => {
            let v2 = match push_entry(b, body, k) {
                GoogleSectionBodyV::Attributes(w) => w,
                _ => v,
            };
            assert forall|i: int| 0 <= i < v2.len() implies attribute_ok(b, #[trigger] v2[i], t) by {
                if i < v.len() {
                    assert(v2[i] == v[i]);
                    assert(attribute_ok(b, v[i], u));
                }
            }
        },
        GoogleSectionBodyV::Methods(v) => {
            let v2 = match push_entry(b, body, k) {
                GoogleSectionBodyV::Methods(w) => w,
                _ => v,
            };
            assert forall|i: int| 0 <= i < v2.len() implies method_ok(b, #[trigger] v2[i], t) by {
                if i < v.len() {
                    assert(v2[i] == v[i]);
                    assert(method_ok(b, v[i], u));
                }
            }
        },
        GoogleSectionBodyV::SeeAlso(v) => {
            lemma_split_names_sok(b, h.name.lo(), h.name.hi(), h.name.lo(), t);
            let v2 = match push_entry(b, body, k) {
                GoogleSectionBodyV::SeeAlso(w) => w,
                _ => v,
            };
            assert forall|i: int| 0 <= i < v2.len() implies see_also_ok(b, #[trigger] v2[i], t) by {
                if i < v.len() {
                    assert(v2[i] == v[i]);
                    assert(see_also_ok(b, v[i], u));
                    assert forall|j: int| 0 <= j < v[i].names.len() implies sok(
                        b,
                        #[trigger] v[i].names[j],
                        t,
                    ) by {
                        assert(sok(b, v[i].names[j], u));
                    }
                }
            }
        },
        _ => {},
    }
}

/// Extending the last entry by line `k` keeps the body valid, up to line `k`.
pub proof fn lemma_extend_last_ok(b: Seq<u8>, body: GoogleSectionBodyV, k: int, u: int)
    requires
        source_ok(b),
        body_ok(b, body, u),
        u <= tlo(b, k),
    ensures
        body_ok(b, extend_last(body, trimmed_range(b, k)), thi(b, k)),
{
    let t = thi(b, k);
    let r = trimmed_range(b, k);
    lemma_line_facts(b, k);
    lemma_body_ok_mono(b, body, u, t);
    match body {
        GoogleSectionBodyV::Args(v) => {
            if v.len() > 0 {
                let l = v.last();
                assert(arg_ok(b, l, u));
                lemma_extended_ok(b, l.description, k, u);
                lemma_to_end_ok(b, l.range, k, u);
                let v2 = match extend_last(body, r) {
                    GoogleSectionBodyV::Args(w) => w,
                    _ => v,
                };
                assert forall|i: int| 0 <= i < v2.len() implies arg_ok(b, #[trigger] v2[i], t) by {
                    if i < v.len() - 1 {
                        assert(v2[i] == v[i]);
                        assert(arg_ok(b, v[i], u));
                    }
                }
            }
        },
        GoogleSectionBodyV::KeywordArgs(v) => {
            if v.len() > 0 {
                let l = v.last();
                assert(arg_ok(b, l, u));
                lemma_extended_ok(b, l.description, k, u);
                lemma_to_end_ok(b, l.range, k, u);
                let v2 = match extend_last(body, r) {
                    GoogleSectionBodyV::KeywordArgs(w) => w,
                    _ => v,
                };
                assert forall|i: int| 0 <= i < v2.len() implies arg_ok(b, #[trigger] v2[i], t) by {
                    if i < v.len() - 1 {
                        assert(v2[i] == v[i]);
                        assert(arg_ok(b, v[i], u));
                    }
                }
            }
        },
        GoogleSectionBodyV::OtherParameters(v) => {
            if v.len() > 0 {
                let l = v.last();
                assert(arg_ok(b, l, u));
                lemma_extended_ok(b, l.description, k, u);
                lemma_to_end_ok(b, l.range, k, u);
                let v2 = match extend_last(body, r) {
                    GoogleSectionBodyV::OtherParameters(w) => w,
                    _ => v,
                };
                assert forall|i: int| 0 <= i < v2.len() implies arg_ok(b, #[trigger] v2[i], t) by {
                    if i < v.len() - 1 {
                        assert(v2[i] == v[i]);
                        assert(arg_ok(b, v[i], u));
                    }
                }
            }
        },
        GoogleSectionBodyV::Receives(v) => {
            if v.len() > 0 {
                let l = v.last();
                assert(arg_ok(b, l, u));
                lemma_extended_ok(b, l.description, k, u);
                lemma_to_end_ok(b, l.range, k, u);
                let v2 = match extend_last(body, r) {
                    GoogleSectionBodyV::Receives(w) => w,
                    _ => v,
                };
                assert forall|i: int| 0 <= i < v2.len() implies arg_ok(b, #[trigger] v2[i], t) by {
                    if i < v.len() - 1 {
                        assert(v2[i] == v[i]);
                        assert(arg_ok(b, v[i], u));
                    }
                }
            }
        },
        GoogleSectionBodyV::Raises(v) => {
            if v.len() > 0 {
                let l = v.last();
                assert(exception_ok(b, l, u));
                lemma_extended_ok(b, l.description, k, u);
                lemma_to_end_ok(b, l.range, k, u);
                let v2 = match extend_last(body, r) {
                    GoogleSectionBodyV::Raises(w) => w,
                    _ => v,
                };
                assert forall|i: int| 0 <= i < v2.len() implies exception_ok(b, #[trigger] v2[i], t) by {
                    if i < v.len() - 1 {
                        assert(v2[i] == v[i]);
                        assert(exception_ok(b, v[i], u));
                    }
                }
            }
        },
        GoogleSectionBodyV::Warns(v) => {
            if v.len() > 0 {
                let l = v.last();
                assert(warning_ok(b, l, u));
                lemma_extended_ok(b, l.description, k, u);
                lemma_to_end_ok(b, l.range, k, u);
                let v2 = match extend_last(body, r) {
                    GoogleSectionBodyV::Warns(w) => w,
                    _ => v,
                };
                assert forall|i: int| 0 <= i < v2.len() implies warning_ok(b, #[trigger] v2[i], t) by {
                    if i < v.len() - 1 {
                        assert(v2[i] == v[i]);
                        assert(warning_ok(b, v[i], u));
                    }
                }
            }
        },
        GoogleSectionBodyV::Attributes(v) => {
            if v.len() > 0 {
                let l = v.last();
                assert(attribute_ok(b, l, u));
                lemma_extended_ok(b, l.description, k, u);
                lemma_to_end_ok(b, l.range, k, u);
                let v2 = match extend_last(body, r) {
                    GoogleSectionBodyV::Attributes(w) => w,
                    _ => v,
                };
                assert forall|i: int| 0 <= i < v2.len() implies attribute_ok(b, #[trigger] v2[i], t) by {
                    if i < v.len() - 1 {
                        assert(v2[i] == v[i]);
                        assert(attribute_ok(b, v[i], u));
                    }
                }
            }
        },
        GoogleSectionBodyV::Methods(v) => {
            if v.len() > 0 {
                let l = v.last();
                assert(method_ok(b, l, u));
                lemma_extended_ok(b, l.description, k, u);
                lemma_to_end_ok(b, l.range, k, u);
                let v2 = match extend_last(body, r) {
                    GoogleSectionBodyV::Methods(w) => w,
                    _ => v,
                };
                assert forall|i: int| 0 <= i < v2.len() implies method_ok(b, #[trigger] v2[i], t) by {
                    if i < v.len() - 1 {
                        assert(v2[i] == v[i]);
                        assert(method_ok(b, v[i], u));
                    }
                }
            }
        },
        GoogleSectionBodyV::SeeAlso(v) => {
            if v.len() > 0 {
                let l = v.last();
                assert(see_also_ok(b, l, u));
                match l.description {
                    Some(x) => lemma_extended_ok(b, x, k, u),
                    None => {},
                }
                lemma_to_end_ok(b, l.range, k, u);
                let v2 = match extend_last(body, r) {
                    GoogleSectionBodyV::SeeAlso(w) => w,
                    _ => v,
                };
                assert forall|i: int| 0 <= i < v2.len() implies see_also_ok(b, #[trigger] v2[i], t) by {
                    assert(see_also_ok(b, v[i], u));
                    assert forall|j: int| 0 <= j < v[i].names.len() implies sok(
                        b,
                        #[trigger] v[i].names[j],
                        t,
                    ) by {
                        assert(sok(b, v[i].names[j], u));
                    }
                    if i < v.len() - 1 {
                        assert(v2[i] == v[i]);
                    }
                }
            }
        },
        _ => {},
    }
}

/// A Returns/Yields line keeps the entry valid, up to line `k`.
pub proof fn lemma_returns_line_ok(b: Seq<u8>, ret: GoogleReturns, k: int, u: int)
    requires
        source_ok(b),
        returns_ok(b, ret, u),
        u <= tlo(b, k),
    ensures
        returns_ok(b, returns_line(b, ret, k), thi(b, k)),
{
    let ts = tlo(b, k);
    let te = thi(b, k);
    lemma_line_facts(b, k);
    if ret.range.lo() == ret.range.hi() {
        lemma_entry_colon_bounds(b, ts, te, 0);
        match entry_colon(b, ts, te) {
            Some(cl) => {
                lemma_ascii_boundary(b, cl);
                lemma_skip_ws_back_bounds(b, ts, cl);
                lemma_skip_ws_back_boundary(b, ts, cl);
                lemma_skip_ws_bounds(b, cl + 1, te);
                lemma_skip_ws_boundary(b, cl + 1, te);
                lemma_mk_sok(b, ts, skip_ws_back(b, ts, cl), te);
                lemma_mk_sok(b, cl, cl + 1, te);
                let d = skip_ws(b, cl + 1, te);
                if d < te {
                    lemma_mk_sok(b, d, te, te);
                }
            },
            None => {},
        }
    } else {
        lemma_extended_ok(b, ret.description, k, u);
        lemma_to_end_ok(b, ret.range, k, u);
    }
}

/// Line `k` of a section keeps its body valid, up to the last line it
/// reads.
pub proof fn lemma_body_line_ok(
    b: Seq<u8>,
    body: GoogleSectionBodyV,
    indent: Option<int>,
    k: int,
    u: int,
)
    requires
        source_ok(b),
        0 <= k < line_count(b),
        body_ok(b, body, u),
        u <= tlo(b, k),
    ensures
        k + 1 <= body_line(b, body, indent, k).2 <= line_count(b),
        body_ok(b, body_line(b, body, indent, k).0, thi(b, body_line(b, body, indent, k).2 - 1)),
{
    lemma_line_facts(b, k);
    lemma_entry_last_line(b, k);
    if is_entry_body(body) {
        lemma_push_entry_ok(b, body, k, u);
        lemma_extend_last_ok(b, body, k, u);
    } else {
        match body {
            GoogleSectionBodyV::Returns(r) => lemma_returns_line_ok(b, r, k, u),
            GoogleSectionBodyV::Yields(r) => lemma_returns_line_ok(b, r, k, u),
            _ => {
                lemma_body_ok_mono(b, body, u, thi(b, k));
                match body {
                    GoogleSectionBodyV::Notes(x) | GoogleSectionBodyV::Examples(x)
                    | GoogleSectionBodyV::Todo(x) | GoogleSectionBodyV::References(x)
                    | GoogleSectionBodyV::Warnings(x) | GoogleSectionBodyV::Attention(x)
                    | GoogleSectionBodyV::Caution(x) | GoogleSectionBodyV::Danger(x)
                    | GoogleSectionBodyV::Error(x) | GoogleSectionBodyV::Hint(x)
                    | GoogleSectionBodyV::Important(x) | GoogleSectionBodyV::Tip(x)
                    | GoogleSectionBodyV::Unknown(x) => lemma_extended_ok(b, x, k, u),
                    _ => {},
                }
            },
        }
    }
}

/// The empty body of any kind is valid.
pub proof fn lemma_empty_body_ok(b: Seq<u8>, kind: GoogleSectionKind, u: int)
    requires
        valid_utf8(b),
        0 <= u,
    ensures
        body_ok(b, empty_body(kind), u),
{
}

// ===========================================================================
// The line loop
// ===========================================================================

/// What holds of the parser state before line `k`: everything lies before
/// the line, the pending content lines are earlier lines, the items are
/// ordered, and the pending section starts after them.
pub open spec fn state_ok(b: Seq<u8>, st: GoogleStateV, k: int) -> bool {
    let u = line_lo(b, k);
    &&& st.skip_to <= line_count(b)
    &&& osok(b, st.summary, u)
    &&& osok(b, st.extended_summary, u)
    &&& (st.summary_first matches Some(f) ==> 0 <= f <= st.summary_last < k)
    &&& (st.ext_first matches Some(f) ==> 0 <= f <= st.ext_last < k)
    &&& (forall|i: int| 0 <= i < st.items.len() ==> item_ok(b, #[trigger] st.items[i], u))
    &&& items_ordered(st.items)
    &&& match st.current {
        Some((h, body)) => {
            &&& header_ok(b, h, u)
            &&& body_ok(b, body, line_lo(b, read_to(st, k)))
            &&& last_nonblank_before(b, 0, k) >= 0
            &&& h.range.lo() <= thi(b, last_nonblank_before(b, 0, k))
            &&& forall|i: int|
                0 <= i < st.items.len() ==> item_range(#[trigger] st.items[i]).hi() <= h.range.lo()
        },
        None => true,
    }
}

/// The line before which everything read so far lies, at line `k`: past
/// the lines that the last entry's bracketed type spans.
pub open spec fn read_to(st: GoogleStateV, k: int) -> int {
    if st.skip_to > k {
        st.skip_to
    } else {
        k
    }
}

/// The range of the content lines `[f, l]` before line `k` is valid.
pub proof fn lemma_content_range_ok(b: Seq<u8>, f: int, l: int, k: int)
    requires
        source_ok(b),
        0 <= f <= l < k,
    ensures
        sok(b, content_range(b, f, l), line_lo(b, k)),
{
    lemma_line_facts(b, f);
    lemma_line_facts(b, l);
    lemma_line_bounds(b, l);
    lemma_line_order(b, l, k);
    if f < l {
        lemma_line_order(b, f, l);
    }
    lemma_mk_sok(b, tlo(b, f), thi(b, l), line_lo(b, k));
}

/// `last_nonblank_before` and line order.
pub proof fn lemma_last_nonblank(b: Seq<u8>, k: int)
    requires
        0 <= k,
    ensures
        last_nonblank_before(b, 0, k) < k,
        last_nonblank_before(b, 0, k) >= 0 ==> !is_blank(b, last_nonblank_before(b, 0, k)),
    decreases k,
{
    if k > 0 && is_blank(b, k - 1) {
        lemma_last_nonblank(b, k - 1);
    }
}

/// Flushing the pending section at line `k` keeps the items valid and
/// ordered, all ending before line `k`.
pub proof fn lemma_flush_ok(b: Seq<u8>, st: GoogleStateV, k: int)
    requires
        source_ok(b),
        0 <= k,
        st.skip_to <= k,
        state_ok(b, st, k),
    ensures
        forall|i: int| 0 <= i < flush(b, st, k).len() ==> item_ok(b, #[trigger] flush(b, st, k)[i], line_lo(b, k)),
        items_ordered(flush(b, st, k)),
        forall|i: int|
            0 <= i < flush(b, st, k).len() ==> item_range(#[trigger] flush(b, st, k)[i]).hi()
                <= line_lo(b, k),
{
    let u = line_lo(b, k);
    let items = flush(b, st, k);
    assert forall|i: int| 0 <= i < st.items.len() implies item_range(#[trigger] st.items[i]).hi()
        <= u by {
        assert(item_ok(b, st.items[i], u));
    }
    match st.current {
        Some((h, body)) => {
            let l = last_nonblank_before(b, 0, k);
            lemma_last_nonblank(b, k);
            lemma_line_facts(b, l);
            lemma_line_bounds(b, l);
            lemma_line_order(b, l, k);
            lemma_mk_sok(b, h.range.lo(), thi(b, l), u);
            assert(section_range(b, h.range.lo(), k) == mk_range(h.range.lo(), thi(b, l)));
            assert forall|i: int| 0 <= i < items.len() implies item_ok(b, #[trigger] items[i], u) by {
                if i < st.items.len() {
                    assert(items[i] == st.items[i]);
                }
            }
            assert forall|i: int, j: int| 0 <= i < j < items.len() implies item_range(
                #[trigger] items[i],
            ).hi() <= item_range(#[trigger] items[j]).lo() by {
                if j < st.items.len() {
                    assert(items[i] == st.items[i]);
                    assert(items[j] == st.items[j]);
                } else {
                    assert(items[i] == st.items[i]);
                }
            }
            assert forall|i: int| 0 <= i < items.len() implies item_range(#[trigger] items[i]).hi()
                <= u by {
                if i < st.items.len() {
                    assert(items[i] == st.items[i]);
                }
            }
        },
        None => {},
    }
}

/// Processing line `k` keeps the state invariant.
pub proof fn lemma_step_ok(b: Seq<u8>, st: GoogleStateV, k: int)
    requires
        source_ok(b),
        0 <= k < line_count(b),
        state_ok(b, st, k),
    ensures
        state_ok(b, google_step(b, st, k), k + 1),
{
    let u = line_lo(b, k);
    let u2 = line_lo(b, k + 1);
    lemma_line_facts(b, k);
    lemma_line_bounds(b, k);
    lemma_line_order(b, k, k + 1);
    assert(u <= tlo(b, k) && thi(b, k) <= u2);
    let st2 = google_step(b, st, k);
    assert forall|i: int| 0 <= i < st.items.len() implies item_ok(b, #[trigger] st.items[i], u2) by {
        lemma_item_ok_mono(b, st.items[i], u, u2);
    }
    match st.summary_first {
        Some(f) => lemma_content_range_ok(b, f, st.summary_last, k + 1),
        None => {},
    }
    match st.ext_first {
        Some(f) => lemma_content_range_ok(b, f, st.ext_last, k + 1),
        None => {},
    }
    if k < st.skip_to {
        // A line of an entry already read: the state is unchanged.
        assert(st2 == st);
        if !is_blank(b, k) {
            assert(last_nonblank_before(b, 0, k + 1) == k);
            match st.current {
                Some((h, body)) => {
                    let l = last_nonblank_before(b, 0, k);
                    lemma_last_nonblank(b, k);
                    lemma_line_bounds(b, l);
                    lemma_line_order(b, l, k);
                },
                None => {},
            }
        } else {
            assert(last_nonblank_before(b, 0, k + 1) == last_nonblank_before(b, 0, k));
        }
    } else if is_blank(b, k) {
        assert(last_nonblank_before(b, 0, k + 1) == last_nonblank_before(b, 0, k));
        match st.current {
            Some((h, body)) => lemma_body_ok_mono(b, body, u, u2),
            None => {},
        }
    } else {
        assert(last_nonblank_before(b, 0, k + 1) == k);
        match google_header(b, k) {
            Some(h) => {
                lemma_header_ok(b, k);
                lemma_flush_ok(b, st, k);
                lemma_empty_body_ok(b, h.kind, u2);
                let items = flush(b, st, k);
                assert forall|i: int| 0 <= i < items.len() implies item_ok(b, #[trigger] items[i], u2) by {
                    lemma_item_ok_mono(b, items[i], u, u2);
                }
            },
            None => match st.current {
                Some((h, body)) => {
                    lemma_body_line_ok(b, body, st.entry_indent, k, u);
                    let r = body_line(b, body, st.entry_indent, k);
                    lemma_line_bounds(b, r.2 - 1);
                    if r.2 < line_count(b) {
                        lemma_line_order(b, r.2 - 1, r.2);
                    } else {
                        lemma_line_lo_end(b);
                    }
                    lemma_body_ok_mono(b, r.0, thi(b, r.2 - 1), line_lo(b, read_to(st2, k + 1)));
                    let l = last_nonblank_before(b, 0, k);
                    lemma_line_facts(b, l);
                    lemma_last_nonblank(b, k);
                    lemma_line_order(b, l, k);
                },
                None => {
                    if st.summary_done && st.extended_done {
                        let items = st2.items;
                        assert forall|i: int| 0 <= i < st.items.len() implies item_range(
                            #[trigger] st.items[i],
                        ).hi() <= u by {
                            assert(item_ok(b, st.items[i], u));
                        }
                        assert forall|i: int| 0 <= i < items.len() implies item_ok(
                            b,
                            #[trigger] items[i],
                            u2,
                        ) by {
                            if i < st.items.len() {
                                assert(items[i] == st.items[i]);
                            }
                        }
                        assert forall|i: int, j: int| 0 <= i < j < items.len() implies item_range(
                            #[trigger] items[i],
                        ).hi() <= item_range(#[trigger] items[j]).lo() by {
                            assert(items[i] == st.items[i]);
                            if j < st.items.len() {
                                assert(items[j] == st.items[j]);
                            }
                        }
                    }
                },
            },
        }
    }
}

/// The state invariant holds before every line of the loop.
pub proof fn lemma_run_ok(b: Seq<u8>, s0: int, k: int)
    requires
        source_ok(b),
        0 <= s0 <= k <= line_count(b),
    ensures
        state_ok(b, google_run(b, s0, k), k),
    decreases k - s0,
{
    if k > s0 {
        lemma_run_ok(b, s0, k - 1);
        lemma_step_ok(b, google_run(b, s0, k - 1), k - 1);
    } else {
        assert(google_run(b, s0, k) == init_state());
    }
}

/// The start of the line after the last one is the end of the source.
pub proof fn lemma_line_lo_end(b: Seq<u8>)
    ensures
        line_lo(b, line_count(b)) == b.len(),
{
    crate::cursor::lemma_nl_offsets(b, b.len() as int);
}

/// Every range of the Google-style parse of `b` is a slice of `b` between
/// character boundaries, and its items come in document order without
/// overlapping.
pub proof fn lemma_google_parse_ok(b: Seq<u8>)
    requires
        source_ok(b),
    ensures
        google_doc_ok(b, google_parse(b)),
{
    let n = line_count(b);
    let s0 = first_nonblank_from(b, 0);
    crate::utf8::lemma_boundary_iff_not_continuation(b, b.len() as int);
    lemma_line_lo_end(b);
    if s0 < n {
        crate::styles::numpy::parser::lemma_first_nonblank(b, 0);
        lemma_run_ok(b, 0, n);
        lemma_run_ok(b, s0, n);
        let st = google_run(b, s0, n);
        lemma_flush_ok(b, st, n);
        match st.summary_first {
            Some(f) => lemma_content_range_ok(b, f, st.summary_last, n),
            None => {},
        }
        match st.ext_first {
            Some(f) => lemma_content_range_ok(b, f, st.ext_last, n),
            None => {},
        }
        lemma_mk_sok(b, 0, b.len() as int, b.len() as int);
    }
}

/// Law: every range of a Google-style parse (summaries, items, headers and
/// entries) can be sliced out of the source: it lies inside it and both its
/// ends are character boundaries; and the sections and stray lines come in
/// document order without overlapping.
pub proof fn law_google_ranges(input: &str, d: GoogleDocstringV)
    requires
        input.spec_bytes().len() <= u32::MAX,
        is_google_parse(input, d),
    ensures
        google_doc_ok(input.spec_bytes(), d),
{
    vstd::utf8::encode_utf8_valid_utf8(input@);
    lemma_google_parse_ok(input.spec_bytes());
}

/// Law: a docstring whose every line is blank parses to the empty docstring
/// (empty range, no summary, no extended summary, no items); any other
/// docstring's range covers the whole input.
pub proof fn law_google_extent(input: &str, d: GoogleDocstringV)
    requires
        is_google_parse(input, d),
    ensures
        all_blank(input.spec_bytes()) ==> d.range == TextRange::spec_empty() && d.summary is None
            && d.extended_summary is None && d.items.len() == 0,
        !all_blank(input.spec_bytes()) ==> d.range == mk_range(0, input.spec_bytes().len() as int),
{
    lemma_first_nonblank_none(input.spec_bytes(), 0);
}

/// The section kind that the variant of `body` belongs to.
pub open spec fn google_body_kind(body: GoogleSectionBodyV) -> GoogleSectionKind {
    match body {
        GoogleSectionBodyV::Args(_) => GoogleSectionKind::Args,
        GoogleSectionBodyV::KeywordArgs(_) => GoogleSectionKind::KeywordArgs,
        GoogleSectionBodyV::OtherParameters(_) => GoogleSectionKind::OtherParameters,
        GoogleSectionBodyV::Receives(_) => GoogleSectionKind::Receives,
        GoogleSectionBodyV::Returns(_) => GoogleSectionKind::Returns,
        GoogleSectionBodyV::Yields(_) => GoogleSectionKind::Yields,
        GoogleSectionBodyV::Raises(_) => GoogleSectionKind::Raises,
        GoogleSectionBodyV::Warns(_) => GoogleSectionKind::Warns,
        GoogleSectionBodyV::SeeAlso(_) => GoogleSectionKind::SeeAlso,
        GoogleSectionBodyV::Attributes(_) => GoogleSectionKind::Attributes,
        GoogleSectionBodyV::Methods(_) => GoogleSectionKind::Methods,
        GoogleSectionBodyV::Notes(_) => GoogleSectionKind::Notes,
        GoogleSectionBodyV::Examples(_) => GoogleSectionKind::Examples,
        GoogleSectionBodyV::Todo(_) => GoogleSectionKind::Todo,
        GoogleSectionBodyV::References(_) => GoogleSectionKind::References,
        GoogleSectionBodyV::Warnings(_) => GoogleSectionKind::Warnings,
        GoogleSectionBodyV::Attention(_) => GoogleSectionKind::Attention,
        GoogleSectionBodyV::Caution(_) => GoogleSectionKind::Caution,
        GoogleSectionBodyV::Danger(_) => GoogleSectionKind::Danger,
        GoogleSectionBodyV::Error(_) => GoogleSectionKind::Error,
        GoogleSectionBodyV::Hint(_) => GoogleSectionKind::Hint,
        GoogleSectionBodyV::Important(_) => GoogleSectionKind::Important,
        GoogleSectionBodyV::Tip(_) => GoogleSectionKind::Tip,
        GoogleSectionBodyV::Unknown(_) => GoogleSectionKind::Unknown,
    }
}

/// Every section among `items` has a body of its header's kind.
pub open spec fn google_bodies_match(items: Seq<GoogleDocstringItemV>) -> bool {
    forall|i: int|
        0 <= i < items.len() ==> (#[trigger] items[i] matches GoogleDocstringItemV::Section(s)
            ==> google_body_kind(s.body) == s.header.kind)
}

/// The kind of header `h` is the one its name text in `b` names, matched
/// ASCII case-insensitively.
pub open spec fn google_header_named(b: Seq<u8>, h: GoogleSectionHeader) -> bool {
    h.kind == google_kind(lower_seq(b.subrange(h.name.lo(), h.name.hi())))
}

/// Every section among `items` has a header whose kind its name text names.
pub open spec fn google_headers_named(b: Seq<u8>, items: Seq<GoogleDocstringItemV>) -> bool {
    forall|i: int|
        0 <= i < items.len() ==> (#[trigger] items[i] matches GoogleDocstringItemV::Section(s)
            ==> google_header_named(b, s.header))
}

/// Reading a content line keeps the variant of a section body.
proof fn lemma_body_line_kind(b: Seq<u8>, body: GoogleSectionBodyV, indent: Option<int>, k: int)
    ensures
        google_body_kind(body_line(b, body, indent, k).0) == google_body_kind(body),
{
}

/// A header read from line `k` has the kind its name text names.
proof fn lemma_google_header_named(b: Seq<u8>, k: int)
    requires
        b.len() <= u32::MAX,
        google_header(b, k) is Some,
    ensures
        google_header_named(b, google_header(b, k)->0),
{
    lemma_line_bounds(b, k);
    let ts = tlo(b, k);
    let te = thi(b, k);
    if ts < te && b[te - 1] == 0x3A {
        lemma_skip_ws_back_bounds(b, ts, te - 1);
    }
}

/// The sections read so far, and the open one, have bodies of their
/// headers' kinds and headers whose kinds their names name.
proof fn lemma_run_kinds(b: Seq<u8>, s0: int, k: int)
    requires
        b.len() <= u32::MAX,
    ensures
        google_bodies_match(google_run(b, s0, k).items),
        google_headers_named(b, google_run(b, s0, k).items),
        google_run(b, s0, k).current matches Some((h, body)) ==> google_body_kind(body) == h.kind
            && google_header_named(b, h),
    decreases k - s0,
{
    if k > s0 {
        lemma_run_kinds(b, s0, k - 1);
        let st = google_run(b, s0, k - 1);
        if let Some((h, body)) = st.current {
            lemma_body_line_kind(b, body, st.entry_indent, k - 1);
        }
        if google_header(b, k - 1) is Some {
            lemma_google_header_named(b, k - 1);
        }
        let st2 = google_run(b, s0, k);
        assert forall|i: int| 0 <= i < st2.items.len() implies (#[trigger] st2.items[i] matches GoogleDocstringItemV::Section(s)
            ==> google_body_kind(s.body) == s.header.kind && google_header_named(b, s.header)) by {
            if i < st.items.len() {
                assert(st2.items[i] == st.items[i]);
            }
        }
    }
}

/// The sections of the parse of `b` have bodies of their headers' kinds and
/// headers whose kinds their names name.
proof fn lemma_items_kinds(b: Seq<u8>)
    requires
        b.len() <= u32::MAX,
    ensures
        google_bodies_match(google_parse(b).items),
        google_headers_named(b, google_parse(b).items),
{
    let s0 = first_nonblank_from(b, 0);
    let n = line_count(b);
    if s0 < n {
        lemma_run_kinds(b, s0, n);
        let st = google_run(b, s0, n);
        let items = flush(b, st, n);
        assert forall|i: int| 0 <= i < items.len() implies (#[trigger] items[i] matches GoogleDocstringItemV::Section(s)
            ==> google_body_kind(s.body) == s.header.kind && google_header_named(b, s.header)) by {
            if i < st.items.len() {
                assert(items[i] == st.items[i]);
            }
        }
    }
}

/// Law: the body of every section of a Google-style parse is of the kind
/// its header names (an `Args:` header has an `Args` body, and so on).
pub proof fn law_google_section_bodies(input: &str, d: GoogleDocstringV)
    requires
        input.spec_bytes().len() <= u32::MAX,
        is_google_parse(input, d),
    ensures
        google_bodies_match(d.items),
{
    lemma_items_kinds(input.spec_bytes());
}

/// Law: the kind stored in every section header of a Google-style parse is
/// the one its name text (without the colon) names, lowercased.
pub proof fn law_google_header_kinds(input: &str, d: GoogleDocstringV)
    requires
        input.spec_bytes().len() <= u32::MAX,
        is_google_parse(input, d),
    ensures
        google_headers_named(input.spec_bytes(), d.items),
{
    lemma_items_kinds(input.spec_bytes());
}

/// `new` is `old` with one entry appended, of the same variant, whose range
/// starts at `lo`; the entries before it are those of `old`.
pub open spec fn google_entry_appended(old: GoogleSectionBodyV, new: GoogleSectionBodyV, lo: int) -> bool {
    match (old, new) {
        (GoogleSectionBodyV::Args(v), GoogleSectionBodyV::Args(w)) => w.len() == v.len() + 1 && w.subrange(0, v.len() as int) == v && w[v.len() as int].range.lo() == lo,
        (GoogleSectionBodyV::KeywordArgs(v), GoogleSectionBodyV::KeywordArgs(w)) => w.len() == v.len() + 1 && w.subrange(0, v.len() as int) == v && w[v.len() as int].range.lo() == lo,
        (GoogleSectionBodyV::OtherParameters(v), GoogleSectionBodyV::OtherParameters(w)) => w.len() == v.len() + 1 && w.subrange(0, v.len() as int) == v && w[v.len() as int].range.lo() == lo,
        (GoogleSectionBodyV::Receives(v), GoogleSectionBodyV::Receives(w)) => w.len() == v.len() + 1 && w.subrange(0, v.len() as int) == v && w[v.len() as int].range.lo() == lo,
        (GoogleSectionBodyV::Raises(v), GoogleSectionBodyV::Raises(w)) => w.len() == v.len() + 1 && w.subrange(0, v.len() as int) == v && w[v.len() as int].range.lo() == lo,
        (GoogleSectionBodyV::Warns(v), GoogleSectionBodyV::Warns(w)) => w.len() == v.len() + 1 && w.subrange(0, v.len() as int) == v && w[v.len() as int].range.lo() == lo,
        (GoogleSectionBodyV::Attributes(v), GoogleSectionBodyV::Attributes(w)) => w.len() == v.len() + 1 && w.subrange(0, v.len() as int) == v && w[v.len() as int].range.lo() == lo,
        (GoogleSectionBodyV::Methods(v), GoogleSectionBodyV::Methods(w)) => w.len() == v.len() + 1 && w.subrange(0, v.len() as int) == v && w[v.len() as int].range.lo() == lo,
        (GoogleSectionBodyV::SeeAlso(v), GoogleSectionBodyV::SeeAlso(w)) => w.len() == v.len() + 1 && w.subrange(0, v.len() as int) == v && w[v.len() as int].range.lo() == lo,
        _ => false,
    }
}

/// Law: reading an entry line `k` into a section body of the entry kinds
/// (`Args`, `Keyword Args`, `Other Parameters`, `Receives`, `Raises`,
/// `Warns`, `Attributes`, `Methods`, `See Also`) appends exactly one entry,
/// keeps the variant and the earlier entries, and the new entry's range
/// starts at the first non-whitespace byte of the line.
pub proof fn law_google_push_entry(b: Seq<u8>, body: GoogleSectionBodyV, k: int)
    requires
        b.len() <= u32::MAX,
        is_entry_body(body),
    ensures
        google_entry_appended(body, push_entry(b, body, k), tlo(b, k)),
{
    lemma_line_bounds(b, k);
    match body {
        GoogleSectionBodyV::Args(v) => { assert(push_entry(b, body, k)->Args_0.subrange(0, v.len() as int) =~= v); },
        GoogleSectionBodyV::KeywordArgs(v) => { assert(push_entry(b, body, k)->KeywordArgs_0.subrange(0, v.len() as int) =~= v); },
        GoogleSectionBodyV::OtherParameters(v) => { assert(push_entry(b, body, k)->OtherParameters_0.subrange(0, v.len() as int) =~= v); },
        GoogleSectionBodyV::Receives(v) => { assert(push_entry(b, body, k)->Receives_0.subrange(0, v.len() as int) =~= v); },
        GoogleSectionBodyV::Raises(v) => { assert(push_entry(b, body, k)->Raises_0.subrange(0, v.len() as int) =~= v); },
        GoogleSectionBodyV::Warns(v) => { assert(push_entry(b, body, k)->Warns_0.subrange(0, v.len() as int) =~= v); },
        GoogleSectionBodyV::Attributes(v) => { assert(push_entry(b, body, k)->Attributes_0.subrange(0, v.len() as int) =~= v); },
        GoogleSectionBodyV::Methods(v) => { assert(push_entry(b, body, k)->Methods_0.subrange(0, v.len() as int) =~= v); },
        GoogleSectionBodyV::SeeAlso(v) => { assert(push_entry(b, body, k)->SeeAlso_0.subrange(0, v.len() as int) =~= v); },
        _ => {},
    }
}

/// Every item among `items` has a non-empty range.
pub open spec fn items_nonempty(items: Seq<GoogleDocstringItemV>) -> bool {
    forall|i: int| 0 <= i < items.len() ==> item_range(#[trigger] items[i]).lo() < item_range(items[i]).hi()
}

/// The items read so far have non-empty ranges, and the pending section's
/// header starts before the end of the last non-blank line before `k`.
pub open spec fn run_nonempty(b: Seq<u8>, st: GoogleStateV, k: int) -> bool {
    &&& items_nonempty(st.items)
    &&& st.current matches Some((h, body)) ==> last_nonblank_before(b, 0, k) >= 0 && h.range.lo() < thi(
        b,
        last_nonblank_before(b, 0, k),
    )
}

/// Flushing at line `k` keeps every item non-empty.
proof fn lemma_flush_nonempty(b: Seq<u8>, st: GoogleStateV, k: int)
    requires
        b.len() <= u32::MAX,
        0 <= k,
        run_nonempty(b, st, k),
    ensures
        items_nonempty(flush(b, st, k)),
{
    let items = flush(b, st, k);
    if let Some((h, body)) = st.current {
        let l = last_nonblank_before(b, 0, k);
        lemma_line_bounds(b, l);
        assert(h.range.lo() <= u32::MAX);
    }
    assert forall|i: int| 0 <= i < items.len() implies item_range(#[trigger] items[i]).lo() < item_range(
        items[i],
    ).hi() by {
        if i < st.items.len() {
            assert(items[i] == st.items[i]);
        }
    }
}

/// Processing line `k` keeps the items non-empty.
proof fn lemma_step_nonempty(b: Seq<u8>, st: GoogleStateV, k: int)
    requires
        b.len() <= u32::MAX,
        0 <= k < line_count(b),
        run_nonempty(b, st, k),
    ensures
        run_nonempty(b, google_step(b, st, k), k + 1),
{
    let st2 = google_step(b, st, k);
    lemma_line_bounds(b, k);
    if k < st.skip_to {
        assert(st2 == st);
        if !is_blank(b, k) {
            assert(last_nonblank_before(b, 0, k + 1) == k);
            if st.current is Some {
                let l = last_nonblank_before(b, 0, k);
                lemma_last_nonblank(b, k);
                lemma_line_bounds(b, l);
                lemma_line_order(b, l, k);
            }
        } else {
            assert(last_nonblank_before(b, 0, k + 1) == last_nonblank_before(b, 0, k));
        }
    } else if is_blank(b, k) {
        assert(last_nonblank_before(b, 0, k + 1) == last_nonblank_before(b, 0, k));
    } else {
        assert(last_nonblank_before(b, 0, k + 1) == k);
        assert(tlo(b, k) < thi(b, k));
        match google_header(b, k) {
            Some(h) => {
                lemma_flush_nonempty(b, st, k);
                let ts = tlo(b, k);
                let te = thi(b, k);
                if ts < te && b[te - 1] == 0x3A {
                    lemma_skip_ws_back_bounds(b, ts, te - 1);
                }
            },
            None => match st.current {
                Some((h, body)) => {
                    let l = last_nonblank_before(b, 0, k);
                    lemma_last_nonblank(b, k);
                    lemma_line_bounds(b, l);
                    lemma_line_order(b, l, k);
                },
                None => {
                    assert forall|i: int| 0 <= i < st2.items.len() implies item_range(
                        #[trigger] st2.items[i],
                    ).lo() < item_range(st2.items[i]).hi() by {
                        if i < st.items.len() {
                            assert(st2.items[i] == st.items[i]);
                        }
                    }
                },
            },
        }
    }
}

/// The items read before line `k` have non-empty ranges.
proof fn lemma_run_nonempty(b: Seq<u8>, s0: int, k: int)
    requires
        b.len() <= u32::MAX,
        0 <= s0 <= k <= line_count(b),
    ensures
        run_nonempty(b, google_run(b, s0, k), k),
    decreases k - s0,
{
    if k > s0 {
        lemma_run_nonempty(b, s0, k - 1);
        lemma_step_nonempty(b, google_run(b, s0, k - 1), k - 1);
    }
}

/// Law: every item of a Google-style parse (section or stray line) has a
/// non-empty range, so with the document order of `law_google_ranges` the
/// items start at strictly increasing offsets: sections appear in the order
/// of their header lines and do not overlap.
pub proof fn law_google_items_nonempty(input: &str, d: GoogleDocstringV)
    requires
        input.spec_bytes().len() <= u32::MAX,
        is_google_parse(input, d),
    ensures
        items_nonempty(d.items),
        forall|i: int, j: int|
            0 <= i < j < d.items.len() ==> item_range(#[trigger] d.items[i]).lo() < item_range(
                #[trigger] d.items[j],
            ).lo(),
{
    let b = input.spec_bytes();
    law_google_ranges(input, d);
    let n = line_count(b);
    let s0 = first_nonblank_from(b, 0);
    if s0 < n {
        crate::styles::numpy::parser::lemma_first_nonblank(b, 0);
        lemma_run_nonempty(b, s0, n);
        lemma_flush_nonempty(b, google_run(b, s0, n), n);
    }
    assert forall|i: int, j: int| 0 <= i < j < d.items.len() implies item_range(#[trigger] d.items[i]).lo()
        < item_range(#[trigger] d.items[j]).lo() by {
        assert(item_range(d.items[i]).lo() < item_range(d.items[i]).hi());
    }
}

/// The number of entries of an entry section body (0 for other bodies).
pub open spec fn entry_count(body: GoogleSectionBodyV) -> int {
    match body {
        GoogleSectionBodyV::Args(v) => v.len() as int,
        GoogleSectionBodyV::KeywordArgs(v) => v.len() as int,
        GoogleSectionBodyV::OtherParameters(v) => v.len() as int,
        GoogleSectionBodyV::Receives(v) => v.len() as int,
        GoogleSectionBodyV::Raises(v) => v.len() as int,
        GoogleSectionBodyV::Warns(v) => v.len() as int,
        GoogleSectionBodyV::Attributes(v) => v.len() as int,
        GoogleSectionBodyV::Methods(v) => v.len() as int,
        GoogleSectionBodyV::SeeAlso(v) => v.len() as int,
        _ => 0,
    }
}

/// The range of entry `i` of an entry section body.
pub open spec fn entry_span(body: GoogleSectionBodyV, i: int) -> TextRange {
    match body {
        GoogleSectionBodyV::Args(v) => v[i].range,
        GoogleSectionBodyV::KeywordArgs(v) => v[i].range,
        GoogleSectionBodyV::OtherParameters(v) => v[i].range,
        GoogleSectionBodyV::Receives(v) => v[i].range,
        GoogleSectionBodyV::Raises(v) => v[i].range,
        GoogleSectionBodyV::Warns(v) => v[i].range,
        GoogleSectionBodyV::Attributes(v) => v[i].range,
        GoogleSectionBodyV::Methods(v) => v[i].range,
        GoogleSectionBodyV::SeeAlso(v) => v[i].range,
        _ => TextRange::spec_empty(),
    }
}

/// The description of entry `i` of an entry section body (`None` only for a
/// See Also item without one).
pub open spec fn entry_desc(body: GoogleSectionBodyV, i: int) -> Option<TextRange> {
    match body {
        GoogleSectionBodyV::Args(v) => Some(v[i].description),
        GoogleSectionBodyV::KeywordArgs(v) => Some(v[i].description),
        GoogleSectionBodyV::OtherParameters(v) => Some(v[i].description),
        GoogleSectionBodyV::Receives(v) => Some(v[i].description),
        GoogleSectionBodyV::Raises(v) => Some(v[i].description),
        GoogleSectionBodyV::Warns(v) => Some(v[i].description),
        GoogleSectionBodyV::Attributes(v) => Some(v[i].description),
        GoogleSectionBodyV::Methods(v) => Some(v[i].description),
        GoogleSectionBodyV::SeeAlso(v) => v[i].description,
        _ => None,
    }
}

/// `new` is `old` but for the range and description of its last entry: same
/// section kind, same entries before the last, and the last entry's other
/// parts (name, type, brackets, colon, ...) unchanged.
pub open spec fn differs_in_last_text(old: GoogleSectionBodyV, new: GoogleSectionBodyV) -> bool {
    match (old, new) {
        (GoogleSectionBodyV::Args(v), GoogleSectionBodyV::Args(w))
        | (GoogleSectionBodyV::KeywordArgs(v), GoogleSectionBodyV::KeywordArgs(w))
        | (GoogleSectionBodyV::OtherParameters(v), GoogleSectionBodyV::OtherParameters(w))
        | (GoogleSectionBodyV::Receives(v), GoogleSectionBodyV::Receives(w)) => v.len() == w.len()
            && v.drop_last() == w.drop_last() && GoogleArg {
            range: v.last().range,
            description: v.last().description,
            ..w.last()
        } == v.last(),
        (GoogleSectionBodyV::Raises(v), GoogleSectionBodyV::Raises(w)) => v.len() == w.len()
            && v.drop_last() == w.drop_last() && GoogleException {
            range: v.last().range,
            description: v.last().description,
            ..w.last()
        } == v.last(),
        (GoogleSectionBodyV::Warns(v), GoogleSectionBodyV::Warns(w)) => v.len() == w.len()
            && v.drop_last() == w.drop_last() && GoogleWarning {
            range: v.last().range,
            description: v.last().description,
            ..w.last()
        } == v.last(),
        (GoogleSectionBodyV::Attributes(v), GoogleSectionBodyV::Attributes(w)) => v.len() == w.len()
            && v.drop_last() == w.drop_last() && GoogleAttribute {
            range: v.last().range,
            description: v.last().description,
            ..w.last()
        } == v.last(),
        (GoogleSectionBodyV::Methods(v), GoogleSectionBodyV::Methods(w)) => v.len() == w.len()
            && v.drop_last() == w.drop_last() && GoogleMethod {
            range: v.last().range,
            description: v.last().description,
            ..w.last()
        } == v.last(),
        (GoogleSectionBodyV::SeeAlso(v), GoogleSectionBodyV::SeeAlso(w)) => v.len() == w.len()
            && v.drop_last() == w.drop_last() && GoogleSeeAlsoItemV {
            range: v.last().range,
            description: v.last().description,
            ..w.last()
        } == v.last(),
        _ => false,
    }
}

/// Law: in every entry section (Args, Keyword Args, Other Parameters,
/// Receives, Raises, Warns, Attributes, Methods, See Also), a line `k`
/// indented deeper than the entries continues the last entry, whatever the
/// section kind: only the last entry's range and description change (the
/// section keeps its kind and entries, and the last entry its name, type and
/// other parts), and the last entry's range and its
/// description both end at the end of the line's trimmed text. The
/// description starts where it started when it was not empty, and at the
/// line's first non-whitespace byte otherwise.
pub proof fn law_google_continuation_line(b: Seq<u8>, body: GoogleSectionBodyV, base: int, k: int)
    requires
        b.len() <= u32::MAX,
        is_entry_body(body),
        entry_count(body) > 0,
        indent_cols(b, k) > base,
    ensures
        ({
            let r = body_line(b, body, Some(base), k);
            let n = entry_count(body);
            let old_desc = entry_desc(body, n - 1);
            &&& r.1 == Some(base)
            &&& r.2 == k + 1
            &&& differs_in_last_text(body, r.0)
            &&& entry_count(r.0) == n
            &&& entry_span(r.0, n - 1).lo() == entry_span(body, n - 1).lo()
            &&& entry_span(r.0, n - 1).hi() == thi(b, k)
            &&& entry_desc(r.0, n - 1) is Some
            &&& entry_desc(r.0, n - 1)->0.hi() == thi(b, k)
            &&& entry_desc(r.0, n - 1)->0.lo() == (if old_desc matches Some(d) && d.lo() != d.hi() {
                old_desc->0.lo()
            } else {
                tlo(b, k)
            })
        }),
{
    lemma_line_bounds(b, k);
    let r = body_line(b, body, Some(base), k).0;
    match body {
        GoogleSectionBodyV::Args(v) => match r {
            GoogleSectionBodyV::Args(w) => assert(w.drop_last() =~= v.drop_last()),
            _ => {},
        },
        GoogleSectionBodyV::KeywordArgs(v) => match r {
            GoogleSectionBodyV::KeywordArgs(w) => assert(w.drop_last() =~= v.drop_last()),
            _ => {},
        },
        GoogleSectionBodyV::OtherParameters(v) => match r {
            GoogleSectionBodyV::OtherParameters(w) => assert(w.drop_last() =~= v.drop_last()),
            _ => {},
        },
        GoogleSectionBodyV::Receives(v) => match r {
            GoogleSectionBodyV::Receives(w) => assert(w.drop_last() =~= v.drop_last()),
            _ => {},
        },
        GoogleSectionBodyV::Raises(v) => match r {
            GoogleSectionBodyV::Raises(w) => assert(w.drop_last() =~= v.drop_last()),
            _ => {},
        },
        GoogleSectionBodyV::Warns(v) => match r {
            GoogleSectionBodyV::Warns(w) => assert(w.drop_last() =~= v.drop_last()),
            _ => {},
        },
        GoogleSectionBodyV::Attributes(v) => match r {
            GoogleSectionBodyV::Attributes(w) => assert(w.drop_last() =~= v.drop_last()),
            _ => {},
        },
        GoogleSectionBodyV::Methods(v) => match r {
            GoogleSectionBodyV::Methods(w) => assert(w.drop_last() =~= v.drop_last()),
            _ => {},
        },
        GoogleSectionBodyV::SeeAlso(v) => match r {
            GoogleSectionBodyV::SeeAlso(w) => assert(w.drop_last() =~= v.drop_last()),
            _ => {},
        },
        _ => {},
    }
}

} // verus!
