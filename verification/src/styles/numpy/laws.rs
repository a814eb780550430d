//! Properties of the NumPy-style parse that hold for every input: every
//! range is a slice of the source between character boundaries, and the
//! items come in document order without overlapping.
use vstd::prelude::*;
use vstd::string::StringSliceAdditionalSpecFns;
use vstd::utf8::{valid_utf8, is_char_boundary};
use crate::cursor::{indent_cols, tlo, thi, mk_range, trimmed_range, is_blank, line_count, line_lo, line_hi, last_nonblank_before, first_nonblank_from, lemma_line_bounds, lemma_line_boundaries, lemma_line_order, all_blank, lemma_first_nonblank_none};
use crate::lexical::{skip_ws, skip_ws_back, trim_lo, trim_hi, eq_bytes, starts_with, lemma_skip_ws_bounds, lemma_skip_ws_back_bounds, lower_seq};
use crate::styles::google::laws::{source_ok, lemma_line_facts, lemma_last_nonblank, lemma_skip_commas_back, lemma_line_lo_end};
use crate::styles::numpy::ast::{NumPySectionHeader, NumPySectionBodyV, NumPyParameterV, NumPyReturns, NumPyException, NumPyWarning, SeeAlsoItemV, NumPyReference, NumPyAttribute, NumPyMethod, NumPyDocstringItemV, NumPyDocstringV, NumPyDeprecation, NumPySectionKind, numpy_empty_body, numpy_kind};
use crate::styles::numpy::parser::{numpy_header, TypeScan, classify_segment, type_scan, ParamParts, param_parts, last_byte_before, trimmed_opt, numpy_param, numpy_return, typed_entry, numpy_method, numpy_attribute, numpy_see_also, is_citation, numpy_reference, numpy_push_entry, numpy_extend_last, numpy_is_entry_body, numpy_body_line, NumPyStateV, numpy_flush, numpy_line, numpy_sections, summary_end, next_header, dedent_line, numpy_deprecation, is_deprecation, init_numpy_state, after_summary, after_deprecation, has_extended, numpy_parse, numpy_items, is_numpy_parse, lemma_first_nonblank};
use crate::styles::numpy::parser::lemma_last_nonblank as lemma_last_nonblank_in;

use crate::styles::google::parser::{extend_opt, to_end, section_range, skip_commas_back};
use crate::styles::ranges::{sok, osok, all_sok, lemma_mk_sok, lemma_comma_parts_boundaries, lemma_split_names_sok};
use crate::styles::utils::{entry_colon, comma_parts, any_close_from, lemma_entry_colon_bounds, lemma_any_close_bounds};
use crate::text::TextRange;
use crate::utf8::{lemma_ascii_boundary, lemma_skip_ws_boundary, lemma_skip_ws_back_boundary, lemma_trim_boundary};

verus! {

broadcast use vstd::seq::group_seq_axioms;

// ===========================================================================
// Validity of the parts of a parse
// ===========================================================================

/// The ranges of the section header are valid below `u`.
pub open spec fn header_ok(b: Seq<u8>, h: NumPySectionHeader, u: int) -> bool {
    sok(b, h.range, u) && sok(b, h.name, u) && sok(b, h.underline, u)
}

/// The ranges of the parameter entry are valid below `u`.
pub open spec fn param_ok(b: Seq<u8>, p: NumPyParameterV, u: int) -> bool {
    &&& sok(b, p.range, u)
    &&& all_sok(b, p.names, u)
    &&& osok(b, p.colon, u)
    &&& osok(b, p.ty, u)
    &&& osok(b, p.description, u)
    &&& osok(b, p.optional, u)
    &&& osok(b, p.default_keyword, u)
    &&& osok(b, p.default_separator, u)
    &&& osok(b, p.default_value, u)
}

/// The ranges of the return entry are valid below `u`.
pub open spec fn returns_ok(b: Seq<u8>, r: NumPyReturns, u: int) -> bool {
    sok(b, r.range, u) && osok(b, r.name, u) && osok(b, r.colon, u) && osok(b, r.return_type, u)
        && osok(b, r.description, u)
}

/// The ranges of the exception entry are valid below `u`.
pub open spec fn exception_ok(b: Seq<u8>, r: NumPyException, u: int) -> bool {
    sok(b, r.range, u) && sok(b, r.ty, u) && osok(b, r.colon, u) && osok(b, r.description, u)
}

/// The ranges of the warning entry are valid below `u`.
pub open spec fn warning_ok(b: Seq<u8>, r: NumPyWarning, u: int) -> bool {
    sok(b, r.range, u) && sok(b, r.ty, u) && osok(b, r.colon, u) && osok(b, r.description, u)
}

/// The ranges of the See Also item are valid below `u`.
pub open spec fn see_also_ok(b: Seq<u8>, r: SeeAlsoItemV, u: int) -> bool {
    sok(b, r.range, u) && all_sok(b, r.names, u) && osok(b, r.colon, u) && osok(
        b,
        r.description,
        u,
    )
}

/// The ranges of the reference entry are valid below `u`.
pub open spec fn reference_ok(b: Seq<u8>, r: NumPyReference, u: int) -> bool {
    &&& sok(b, r.range, u)
    &&& osok(b, r.directive_marker, u)
    &&& osok(b, r.open_bracket, u)
    &&& osok(b, r.number, u)
    &&& osok(b, r.close_bracket, u)
    &&& osok(b, r.content, u)
}

/// The ranges of the attribute entry are valid below `u`.
pub open spec fn attribute_ok(b: Seq<u8>, r: NumPyAttribute, u: int) -> bool {
    sok(b, r.range, u) && sok(b, r.name, u) && osok(b, r.colon, u) && osok(b, r.ty, u) && osok(
        b,
        r.description,
        u,
    )
}

/// The ranges of the method entry are valid below `u`.
pub open spec fn method_ok(b: Seq<u8>, r: NumPyMethod, u: int) -> bool {
    sok(b, r.range, u) && sok(b, r.name, u) && osok(b, r.colon, u) && osok(b, r.description, u)
}

/// Every range of the section body is valid below `u`.
pub open spec fn body_ok(b: Seq<u8>, body: NumPySectionBodyV, u: int) -> bool {
    match body {
        NumPySectionBodyV::Parameters(v) => forall|i: int|
            0 <= i < v.len() ==> param_ok(b, #[trigger] v[i], u),
        NumPySectionBodyV::OtherParameters(v) => forall|i: int|
            0 <= i < v.len() ==> param_ok(b, #[trigger] v[i], u),
        NumPySectionBodyV::Receives(v) => forall|i: int|
            0 <= i < v.len() ==> param_ok(b, #[trigger] v[i], u),
        NumPySectionBodyV::Returns(v) => forall|i: int|
            0 <= i < v.len() ==> returns_ok(b, #[trigger] v[i], u),
        NumPySectionBodyV::Yields(v) => forall|i: int|
            0 <= i < v.len() ==> returns_ok(b, #[trigger] v[i], u),
        NumPySectionBodyV::Raises(v) => forall|i: int|
            0 <= i < v.len() ==> exception_ok(b, #[trigger] v[i], u),
        NumPySectionBodyV::Warns(v) => forall|i: int|
            0 <= i < v.len() ==> warning_ok(b, #[trigger] v[i], u),
        NumPySectionBodyV::SeeAlso(v) => forall|i: int|
            0 <= i < v.len() ==> see_also_ok(b, #[trigger] v[i], u),
        NumPySectionBodyV::References(v) => forall|i: int|
            0 <= i < v.len() ==> reference_ok(b, #[trigger] v[i], u),
        NumPySectionBodyV::Attributes(v) => forall|i: int|
            0 <= i < v.len() ==> attribute_ok(b, #[trigger] v[i], u),
        NumPySectionBodyV::Methods(v) => forall|i: int|
            0 <= i < v.len() ==> method_ok(b, #[trigger] v[i], u),
        NumPySectionBodyV::Warnings(t) => osok(b, t, u),
        NumPySectionBodyV::Notes(t) => osok(b, t, u),
        NumPySectionBodyV::Examples(t) => osok(b, t, u),
        NumPySectionBodyV::Unknown(t) => osok(b, t, u),
    }
}

/// The range an item covers.
pub open spec fn item_range(it: NumPyDocstringItemV) -> TextRange {
    match it {
        NumPyDocstringItemV::Section(s) => s.range,
        NumPyDocstringItemV::StrayLine(r) => r,
    }
}

/// Every range of the item is valid below `u`.
pub open spec fn item_ok(b: Seq<u8>, it: NumPyDocstringItemV, u: int) -> bool {
    match it {
        NumPyDocstringItemV::Section(s) => sok(b, s.range, u) && header_ok(b, s.header, u)
            && body_ok(b, s.body, u),
        NumPyDocstringItemV::StrayLine(r) => sok(b, r, u),
    }
}

/// Items come in document order and do not overlap.
pub open spec fn items_ordered(items: Seq<NumPyDocstringItemV>) -> bool {
    forall|i: int, j: int|
        0 <= i < j < items.len() ==> item_range(#[trigger] items[i]).hi() <= item_range(
            #[trigger] items[j],
        ).lo()
}

/// The ranges of the deprecation directive are valid below `u`.
pub open spec fn deprecation_ok(b: Seq<u8>, d: NumPyDeprecation, u: int) -> bool {
    &&& sok(b, d.range, u)
    &&& osok(b, d.directive_marker, u)
    &&& osok(b, d.keyword, u)
    &&& osok(b, d.double_colon, u)
    &&& sok(b, d.version, u)
    &&& sok(b, d.description, u)
}

/// Every range of the docstring is a slice of `b`, and the items come in
/// document order without overlapping.
pub open spec fn numpy_doc_ok(b: Seq<u8>, d: NumPyDocstringV) -> bool {
    let n = b.len() as int;
    &&& sok(b, d.range, n)
    &&& osok(b, d.summary, n)
    &&& (d.deprecation matches Some(x) ==> deprecation_ok(b, x, n))
    &&& osok(b, d.extended_summary, n)
    &&& forall|i: int| 0 <= i < d.items.len() ==> item_ok(b, #[trigger] d.items[i], n)
    &&& items_ordered(d.items)
}

// ===========================================================================
// Bound monotonicity
// ===========================================================================

/// Validity of a list of ranges is kept under a larger bound.
pub proof fn lemma_all_sok_mono(b: Seq<u8>, v: Seq<TextRange>, u: int, u2: int)
    requires
        all_sok(b, v, u),
        u <= u2,
    ensures
        all_sok(b, v, u2),
{
    assert forall|j: int| 0 <= j < v.len() implies sok(b, #[trigger] v[j], u2) by {
        assert(sok(b, v[j], u));
    }
}

/// Validity of a body is kept under a larger bound.
pub proof fn lemma_body_ok_mono(b: Seq<u8>, body: NumPySectionBodyV, u: int, u2: int)
    requires
        body_ok(b, body, u),
        u <= u2,
    ensures
        body_ok(b, body, u2),
{
    match body {
        NumPySectionBodyV::Parameters(v) => {
            assert forall|i: int| 0 <= i < v.len() implies param_ok(b, #[trigger] v[i], u2) by {
                assert(param_ok(b, v[i], u));
                lemma_all_sok_mono(b, v[i].names, u, u2);
            }
        },
        NumPySectionBodyV::OtherParameters(v) => {
            assert forall|i: int| 0 <= i < v.len() implies param_ok(b, #[trigger] v[i], u2) by {
                assert(param_ok(b, v[i], u));
                lemma_all_sok_mono(b, v[i].names, u, u2);
            }
        },
        NumPySectionBodyV::Receives(v) => {
            assert forall|i: int| 0 <= i < v.len() implies param_ok(b, #[trigger] v[i], u2) by {
                assert(param_ok(b, v[i], u));
                lemma_all_sok_mono(b, v[i].names, u, u2);
            }
        },
        NumPySectionBodyV::Returns(v) => {
            assert forall|i: int| 0 <= i < v.len() implies returns_ok(b, #[trigger] v[i], u2) by {
                assert(returns_ok(b, v[i], u));
            }
        },
        NumPySectionBodyV::Yields(v) => {
            assert forall|i: int| 0 <= i < v.len() implies returns_ok(b, #[trigger] v[i], u2) by {
                assert(returns_ok(b, v[i], u));
            }
        },
        NumPySectionBodyV::Raises(v) => {
            assert forall|i: int| 0 <= i < v.len() implies exception_ok(b, #[trigger] v[i], u2) by {
                assert(exception_ok(b, v[i], u));
            }
        },
        NumPySectionBodyV::Warns(v) => {
            assert forall|i: int| 0 <= i < v.len() implies warning_ok(b, #[trigger] v[i], u2) by {
                assert(warning_ok(b, v[i], u));
            }
        },
        NumPySectionBodyV::SeeAlso(v) => {
            assert forall|i: int| 0 <= i < v.len() implies see_also_ok(b, #[trigger] v[i], u2) by {
                assert(see_also_ok(b, v[i], u));
                lemma_all_sok_mono(b, v[i].names, u, u2);
            }
        },
        NumPySectionBodyV::References(v) => {
            assert forall|i: int| 0 <= i < v.len() implies reference_ok(b, #[trigger] v[i], u2) by {
                assert(reference_ok(b, v[i], u));
            }
        },
        NumPySectionBodyV::Attributes(v) => {
            assert forall|i: int| 0 <= i < v.len() implies attribute_ok(b, #[trigger] v[i], u2) by {
                assert(attribute_ok(b, v[i], u));
            }
        },
        NumPySectionBodyV::Methods(v) => {
            assert forall|i: int| 0 <= i < v.len() implies method_ok(b, #[trigger] v[i], u2) by {
                assert(method_ok(b, v[i], u));
            }
        },
        _ => {},
    }
}

/// Validity of an item is kept under a larger bound.
pub proof fn lemma_item_ok_mono(b: Seq<u8>, it: NumPyDocstringItemV, u: int, u2: int)
    requires
        item_ok(b, it, u),
        u <= u2,
    ensures
        item_ok(b, it, u2),
{
    match it {
        NumPyDocstringItemV::Section(s) => lemma_body_ok_mono(b, s.body, u, u2),
        _ => {},
    }
}

// ===========================================================================
// One line
// ===========================================================================

/// A section header's ranges lie in its two lines.
pub proof fn lemma_header_ok(b: Seq<u8>, k: int)
    requires
        source_ok(b),
        numpy_header(b, k) is Some,
    ensures
        header_ok(b, numpy_header(b, k)->0, thi(b, k + 1)),
        numpy_header(b, k)->0.range.lo() == tlo(b, k),
        k + 1 < line_count(b),
        !is_blank(b, k),
        !is_blank(b, k + 1),
{
    lemma_line_facts(b, k);
    lemma_line_facts(b, k + 1);
    if 0 <= k {
        lemma_line_order(b, k, k + 1);
    }
    lemma_line_bounds(b, k);
    lemma_mk_sok(b, tlo(b, k), thi(b, k + 1), thi(b, k + 1));
}

/// The last byte `c` of `[s, j)`, when there is one.
pub proof fn lemma_last_byte_before(b: Seq<u8>, s: int, j: int, c: u8, w: int)
    requires
        s <= w < j,
        b[w] == c,
    ensures
        w <= last_byte_before(b, s, j, c) < j,
        b[last_byte_before(b, s, j, c)] == c,
    decreases j - s,
{
    if b[j - 1] != c {
        lemma_last_byte_before(b, s, j - 1, c, w);
    }
}

/// What holds of a type scan inside the annotation `[al, ah)`.
pub open spec fn scan_ok(b: Seq<u8>, t: TypeScan, al: int, ah: int) -> bool {
    &&& osok(b, t.optional, ah)
    &&& osok(b, t.default_keyword, ah)
    &&& osok(b, t.default_separator, ah)
    &&& osok(b, t.default_value, ah)
    &&& al <= t.type_end <= ah
    &&& is_char_boundary(b, t.type_end)
}

/// The bytes of an ASCII literal.
pub proof fn lemma_ascii_literal(s: &str)
    requires
        vstd::string::is_ascii(s),
    ensures
        s.spec_bytes().len() == s@.len(),
        forall|i: int| 0 <= i < s@.len() ==> #[trigger] s.spec_bytes()[i] < 0x80,
{
    vstd::string::is_ascii_spec_bytes(s);
}

/// Classifying a segment keeps the scan inside the annotation.
pub proof fn lemma_classify_ok(b: Seq<u8>, a: int, z: int, acc: TypeScan, al: int, ah: int)
    requires
        valid_utf8(b),
        0 <= al <= a <= z <= ah <= b.len() <= u32::MAX,
        is_char_boundary(b, a),
        is_char_boundary(b, z),
        scan_ok(b, acc, al, ah),
    ensures
        scan_ok(b, classify_segment(b, a, z, acc), al, ah),
{
    lemma_trim_boundary(b, a, z);
    lemma_skip_ws_bounds(b, a, z);
    lemma_skip_ws_back_bounds(b, trim_lo(b, a, z), z);
    let sa = trim_lo(b, a, z);
    let sz = trim_hi(b, a, z);
    reveal_strlit("optional");
    reveal_strlit("default");
    vstd::string::is_ascii_spec_bytes("optional");
    vstd::string::is_ascii_spec_bytes("default");
    assert(vstd::string::is_ascii("optional"));
    assert(vstd::string::is_ascii("default"));
    if sa < sz {
        if eq_bytes(b, sa, sz, "optional".spec_bytes()) {
            assert(b[sa + 7] == "optional".spec_bytes()[7]);
            lemma_ascii_boundary(b, sa + 7);
            lemma_mk_sok(b, sa, sa + 8, ah);
        } else if starts_with(b, sa, sz, "default".spec_bytes()) {
            assert(b[sa + 6] == "default".spec_bytes()[6]);
            lemma_ascii_boundary(b, sa + 6);
            lemma_mk_sok(b, sa, sa + 7, ah);
            lemma_skip_ws_bounds(b, sa + 7, sz);
            lemma_skip_ws_boundary(b, sa + 7, sz);
            let k2 = skip_ws(b, sa + 7, sz);
            if k2 < sz && b[k2] == 0x3D {
                lemma_ascii_boundary(b, k2);
                lemma_mk_sok(b, k2, k2 + 1, ah);
                lemma_skip_ws_bounds(b, k2 + 1, sz);
                lemma_skip_ws_boundary(b, k2 + 1, sz);
                let v = skip_ws(b, k2 + 1, sz);
                if v < sz {
                    lemma_mk_sok(b, v, sz, ah);
                }
            } else if k2 < sz && b[k2] == 0x3A {
                lemma_last_byte_before(b, sa, sz, 0x3A, k2);
                let lc = last_byte_before(b, sa, sz, 0x3A);
                lemma_ascii_boundary(b, lc);
                lemma_mk_sok(b, lc, lc + 1, ah);
                lemma_ascii_boundary(b, k2);
                lemma_skip_ws_bounds(b, k2 + 1, sz);
                lemma_skip_ws_boundary(b, k2 + 1, sz);
                let v = skip_ws(b, k2 + 1, sz);
                if v < sz {
                    lemma_mk_sok(b, v, sz, ah);
                }
            } else {
                if k2 < sz {
                    lemma_mk_sok(b, k2, sz, ah);
                }
            }
        } else {
            lemma_skip_ws_back_bounds(b, a, z);
            lemma_skip_ws_back_boundary(b, a, z);
        }
    }
}

/// The scan over all segments stays inside the annotation.
pub proof fn lemma_type_scan_ok(b: Seq<u8>, al: int, ah: int, i: int, acc: TypeScan)
    requires
        valid_utf8(b),
        0 <= al <= ah <= b.len() <= u32::MAX,
        is_char_boundary(b, al),
        is_char_boundary(b, ah),
        0 <= i,
        scan_ok(b, acc, al, ah),
    ensures
        scan_ok(b, type_scan(b, comma_parts(b, al, ah), i, acc), al, ah),
    decreases comma_parts(b, al, ah).len() - i,
{
    let parts = comma_parts(b, al, ah);
    if i < parts.len() {
        lemma_comma_parts_boundaries(b, al, ah, 0, al);
        lemma_classify_ok(b, parts[i].0, parts[i].1, acc, al, ah);
        lemma_type_scan_ok(b, al, ah, i + 1, classify_segment(b, parts[i].0, parts[i].1, acc));
    }
}

/// What holds of the parts of a parameter header inside `[ts, te)`.
pub open spec fn parts_ok(b: Seq<u8>, p: ParamParts, u: int) -> bool {
    &&& all_sok(b, p.names, u)
    &&& osok(b, p.colon, u)
    &&& osok(b, p.ty, u)
    &&& osok(b, p.optional, u)
    &&& osok(b, p.default_keyword, u)
    &&& osok(b, p.default_separator, u)
    &&& osok(b, p.default_value, u)
}

/// The parts of a parameter header in `[ts, te)` are valid slices of it.
pub proof fn lemma_param_parts_ok(b: Seq<u8>, ts: int, te: int)
    requires
        valid_utf8(b),
        0 <= ts <= te <= b.len() <= u32::MAX,
        is_char_boundary(b, ts),
        is_char_boundary(b, te),
    ensures
        parts_ok(b, param_parts(b, ts, te), te),
{
    lemma_entry_colon_bounds(b, ts, te, 0);
    match entry_colon(b, ts, te) {
        None => lemma_split_names_sok(b, ts, te, ts, te),
        Some(cl) => {
            lemma_ascii_boundary(b, cl);
            lemma_skip_ws_back_bounds(b, ts, cl);
            lemma_skip_ws_back_boundary(b, ts, cl);
            lemma_split_names_sok(b, ts, skip_ws_back(b, ts, cl), ts, te);
            lemma_mk_sok(b, cl, cl + 1, te);
            lemma_trim_boundary(b, cl + 1, te);
            lemma_skip_ws_bounds(b, cl + 1, te);
            lemma_skip_ws_back_bounds(b, trim_lo(b, cl + 1, te), te);
            let al = trim_lo(b, cl + 1, te);
            let ah = trim_hi(b, cl + 1, te);
            if al < ah {
                let acc0 = TypeScan {
                    optional: None,
                    default_keyword: None,
                    default_separator: None,
                    default_value: None,
                    type_end: al,
                };
                lemma_type_scan_ok(b, al, ah, 0, acc0);
                let scan = type_scan(b, comma_parts(b, al, ah), 0, acc0);
                lemma_skip_commas_back(b, al, scan.type_end);
                let j = skip_commas_back(b, al, scan.type_end);
                lemma_skip_ws_back_bounds(b, al, j);
                lemma_skip_ws_back_boundary(b, al, j);
                lemma_mk_sok(b, al, skip_ws_back(b, al, j), te);
            }
        },
    }
}

/// The bound used for the entries of line `k`: the end of the line.
pub proof fn lemma_line_facts2(b: Seq<u8>, k: int)
    requires
        source_ok(b),
    ensures
        0 <= tlo(b, k) <= thi(b, k) <= line_hi(b, k) <= b.len(),
        is_char_boundary(b, line_hi(b, k)),
        sok(b, trimmed_range(b, k), line_hi(b, k)),
{
    lemma_line_facts(b, k);
    lemma_line_bounds(b, k);
    lemma_line_boundaries(b, k);
}

/// The parameter entry of line `k` is valid up to the end of the line.
pub proof fn lemma_param_entry_ok(b: Seq<u8>, k: int)
    requires
        source_ok(b),
    ensures
        param_ok(b, numpy_param(b, k), line_hi(b, k)),
{
    lemma_line_facts2(b, k);
    lemma_param_parts_ok(b, tlo(b, k), thi(b, k));
    lemma_all_sok_mono(b, param_parts(b, tlo(b, k), thi(b, k)).names, thi(b, k), line_hi(b, k));
}

/// The trimmed part of `[a, z)`, if any, is a valid slice of it.
pub proof fn lemma_trimmed_opt_ok(b: Seq<u8>, a: int, z: int, u: int)
    requires
        valid_utf8(b),
        0 <= a <= z <= u,
        z <= b.len() <= u32::MAX,
        is_char_boundary(b, a),
        is_char_boundary(b, z),
    ensures
        osok(b, trimmed_opt(b, a, z), u),
        trimmed_opt(b, a, z) matches Some(r) ==> a <= r.lo(),
{
    lemma_trim_boundary(b, a, z);
    lemma_skip_ws_bounds(b, a, z);
    lemma_skip_ws_back_bounds(b, trim_lo(b, a, z), z);
    if trim_lo(b, a, z) < trim_hi(b, a, z) {
        lemma_mk_sok(b, trim_lo(b, a, z), trim_hi(b, a, z), u);
    }
}

/// The `name : rest` split of line `k` at its entry colon.
pub proof fn lemma_colon_split(b: Seq<u8>, k: int)
    requires
        source_ok(b),
    ensures
        entry_colon(b, tlo(b, k), thi(b, k)) matches Some(cl) ==> ({
            &&& tlo(b, k) <= cl < thi(b, k)
            &&& is_char_boundary(b, cl)
            &&& is_char_boundary(b, cl + 1)
            &&& sok(b, mk_range(cl, cl + 1), line_hi(b, k))
            &&& sok(b, mk_range(tlo(b, k), skip_ws_back(b, tlo(b, k), cl)), line_hi(b, k))
            &&& osok(b, trimmed_opt(b, cl + 1, thi(b, k)), line_hi(b, k))
            &&& tlo(b, k) <= skip_ws_back(b, tlo(b, k), cl) <= cl
            &&& is_char_boundary(b, skip_ws_back(b, tlo(b, k), cl))
        }),
{
    lemma_line_facts2(b, k);
    let ts = tlo(b, k);
    let te = thi(b, k);
    lemma_entry_colon_bounds(b, ts, te, 0);
    match entry_colon(b, ts, te) {
        Some(cl) => {
            lemma_ascii_boundary(b, cl);
            lemma_skip_ws_back_bounds(b, ts, cl);
            lemma_skip_ws_back_boundary(b, ts, cl);
            lemma_mk_sok(b, cl, cl + 1, line_hi(b, k));
            lemma_mk_sok(b, ts, skip_ws_back(b, ts, cl), line_hi(b, k));
            lemma_trimmed_opt_ok(b, cl + 1, te, line_hi(b, k));
        },
        None => {},
    }
}

/// The return entry of line `k` is valid up to the end of the line.
pub proof fn lemma_return_entry_ok(b: Seq<u8>, k: int)
    requires
        source_ok(b),
    ensures
        returns_ok(b, numpy_return(b, k), line_hi(b, k)),
{
    lemma_line_facts2(b, k);
    lemma_colon_split(b, k);
}

/// The `Type : description` entry of line `k` is valid up to the end of the
/// line.
pub proof fn lemma_typed_entry_ok(b: Seq<u8>, k: int)
    requires
        source_ok(b),
    ensures
        sok(b, typed_entry(b, k).0, line_hi(b, k)),
        osok(b, typed_entry(b, k).1, line_hi(b, k)),
        osok(b, typed_entry(b, k).2, line_hi(b, k)),
{
    lemma_line_facts2(b, k);
    lemma_colon_split(b, k);
}

/// The method entry of line `k` is valid up to the end of the line.
pub proof fn lemma_method_entry_ok(b: Seq<u8>, k: int)
    requires
        source_ok(b),
    ensures
        method_ok(b, numpy_method(b, k), line_hi(b, k)),
{
    lemma_line_facts2(b, k);
    lemma_colon_split(b, k);
}

/// The attribute entry of line `k` is valid up to the end of the line.
pub proof fn lemma_attribute_entry_ok(b: Seq<u8>, k: int)
    requires
        source_ok(b),
    ensures
        attribute_ok(b, numpy_attribute(b, k), line_hi(b, k)),
{
    lemma_line_facts2(b, k);
    lemma_param_parts_ok(b, tlo(b, k), thi(b, k));
    let p = param_parts(b, tlo(b, k), thi(b, k));
    if p.names.len() > 0 {
        assert(sok(b, p.names[0], thi(b, k)));
    }
}

/// The See Also entry of line `k` is valid up to the end of the line.
pub proof fn lemma_see_also_entry_ok(b: Seq<u8>, k: int)
    requires
        source_ok(b),
    ensures
        see_also_ok(b, numpy_see_also(b, k), line_hi(b, k)),
{
    lemma_line_facts2(b, k);
    lemma_colon_split(b, k);
    let ts = tlo(b, k);
    let te = thi(b, k);
    match entry_colon(b, ts, te) {
        Some(cl) => lemma_split_names_sok(b, ts, skip_ws_back(b, ts, cl), ts, line_hi(b, k)),
        None => lemma_split_names_sok(b, ts, te, ts, line_hi(b, k)),
    }
}

/// The reference entry of line `k` is valid up to the end of the line.
pub proof fn lemma_reference_entry_ok(b: Seq<u8>, k: int)
    requires
        source_ok(b),
    ensures
        reference_ok(b, numpy_reference(b, k).0, line_hi(b, k)),
{
    lemma_line_facts2(b, k);
    let ts = tlo(b, k);
    let te = thi(b, k);
    let lh = line_hi(b, k);
    if is_citation(b, k) {
        lemma_skip_ws_bounds(b, ts + 2, te);
        let q = skip_ws(b, ts + 2, te);
        lemma_any_close_bounds(b, q + 1, 1);
        match any_close_from(b, q, 0) {
            Some(cl) => {
                if cl + 1 <= lh {
                    lemma_ascii_boundary(b, ts);
                    lemma_ascii_boundary(b, ts + 1);
                    lemma_ascii_boundary(b, q);
                    lemma_ascii_boundary(b, cl);
                    lemma_mk_sok(b, ts, ts + 2, lh);
                    lemma_mk_sok(b, q, q + 1, lh);
                    lemma_mk_sok(b, cl, cl + 1, lh);
                    lemma_trimmed_opt_ok(b, q + 1, cl, lh);
                    lemma_trimmed_opt_ok(b, cl + 1, lh, lh);
                }
            },
            None => {},
        }
    }
}

/// Appending the entry of line `k` keeps the body valid, up to the end of
/// the line.
pub proof fn lemma_push_entry_ok(b: Seq<u8>, body: NumPySectionBodyV, k: int, u: int)
    requires
        source_ok(b),
        body_ok(b, body, u),
        u <= tlo(b, k),
    ensures
        body_ok(b, numpy_push_entry(b, body, k).0, line_hi(b, k)),
{
    let t = line_hi(b, k);
    lemma_line_facts2(b, k);
    lemma_body_ok_mono(b, body, u, t);
    match body {
        NumPySectionBodyV::Parameters(v) => {
            let v2 = match numpy_push_entry(b, body, k).0 {
                NumPySectionBodyV::Parameters(w) => w,
                _ => v,
            };
            lemma_param_entry_ok(b, k);
            assert forall|i: int| 0 <= i < v2.len() implies param_ok(b, #[trigger] v2[i], t) by {
                if i < v.len() {
                    assert(v2[i] == v[i]);
                }
            }
        },
        NumPySectionBodyV::OtherParameters(v) => {
            let v2 = match numpy_push_entry(b, body, k).0 {
                NumPySectionBodyV::OtherParameters(w) => w,
                _ => v,
            };
            lemma_param_entry_ok(b, k);
            assert forall|i: int| 0 <= i < v2.len() implies param_ok(b, #[trigger] v2[i], t) by {
                if i < v.len() {
                    assert(v2[i] == v[i]);
                }
            }
        },
        NumPySectionBodyV::Receives(v) => {
            let v2 = match numpy_push_entry(b, body, k).0 {
                NumPySectionBodyV::Receives(w) => w,
                _ => v,
            };
            lemma_param_entry_ok(b, k);
            assert forall|i: int| 0 <= i < v2.len() implies param_ok(b, #[trigger] v2[i], t) by {
                if i < v.len() {
                    assert(v2[i] == v[i]);
                }
            }
        },
        NumPySectionBodyV::Returns(v) => {
            let v2 = match numpy_push_entry(b, body, k).0 {
                NumPySectionBodyV::Returns(w) => w,
                _ => v,
            };
            lemma_return_entry_ok(b, k);
            assert forall|i: int| 0 <= i < v2.len() implies returns_ok(b, #[trigger] v2[i], t) by {
                if i < v.len() {
                    assert(v2[i] == v[i]);
                }
            }
        },
        NumPySectionBodyV::Yields(v) => {
            let v2 = match numpy_push_entry(b, body, k).0 {
                NumPySectionBodyV::Yields(w) => w,
                _ => v,
            };
            lemma_return_entry_ok(b, k);
            assert forall|i: int| 0 <= i < v2.len() implies returns_ok(b, #[trigger] v2[i], t) by {
                if i < v.len() {
                    assert(v2[i] == v[i]);
                }
            }
        },
        NumPySectionBodyV::Raises(v) => {
            let v2 = match numpy_push_entry(b, body, k).0 {
                NumPySectionBodyV::Raises(w) => w,
                _ => v,
            };
            lemma_typed_entry_ok(b, k);
            assert forall|i: int| 0 <= i < v2.len() implies exception_ok(b, #[trigger] v2[i], t) by {
                if i < v.len() {
                    assert(v2[i] == v[i]);
                }
            }
        },
        NumPySectionBodyV::Warns(v) => {
            let v2 = match numpy_push_entry(b, body, k).0 {
                NumPySectionBodyV::Warns(w) => w,
                _ => v,
            };
            lemma_typed_entry_ok(b, k);
            assert forall|i: int| 0 <= i < v2.len() implies warning_ok(b, #[trigger] v2[i], t) by {
                if i < v.len() {
                    assert(v2[i] == v[i]);
                }
            }
        },
        NumPySectionBodyV::Attributes(v) => {
            let v2 = match numpy_push_entry(b, body, k).0 {
                NumPySectionBodyV::Attributes(w) => w,
                _ => v,
            };
            lemma_attribute_entry_ok(b, k);
            assert forall|i: int| 0 <= i < v2.len() implies attribute_ok(b, #[trigger] v2[i], t) by {
                if i < v.len() {
                    assert(v2[i] == v[i]);
                }
            }
        },
        NumPySectionBodyV::Methods(v) => {
            let v2 = match numpy_push_entry(b, body, k).0 {
                NumPySectionBodyV::Methods(w) => w,
                _ => v,
            };
            lemma_method_entry_ok(b, k);
            assert forall|i: int| 0 <= i < v2.len() implies method_ok(b, #[trigger] v2[i], t) by {
                if i < v.len() {
                    assert(v2[i] == v[i]);
                }
            }
        },
        NumPySectionBodyV::SeeAlso(v) => {
            let v2 = match numpy_push_entry(b, body, k).0 {
                NumPySectionBodyV::SeeAlso(w) => w,
                _ => v,
            };
            lemma_see_also_entry_ok(b, k);
            assert forall|i: int| 0 <= i < v2.len() implies see_also_ok(b, #[trigger] v2[i], t) by {
                if i < v.len() {
                    assert(v2[i] == v[i]);
                }
            }
        },
        NumPySectionBodyV::References(v) => {
            let v2 = match numpy_push_entry(b, body, k).0 {
                NumPySectionBodyV::References(w) => w,
                _ => v,
            };
            lemma_reference_entry_ok(b, k);
            assert forall|i: int| 0 <= i < v2.len() implies reference_ok(b, #[trigger] v2[i], t) by {
                if i < v.len() {
                    assert(v2[i] == v[i]);
                }
            }
        },
        _ => {},
    }
}

/// Extending an optional description from before line `k` by the line's
/// trimmed text gives a valid range.
pub proof fn lemma_extend_opt_ok(b: Seq<u8>, d: Option<TextRange>, k: int, u: int)
    requires
        source_ok(b),
        osok(b, d, u),
        u <= tlo(b, k),
    ensures
        osok(b, extend_opt(d, trimmed_range(b, k)), line_hi(b, k)),
{
    lemma_line_facts2(b, k);
}

/// A range from before line `k` stretched to the end of the line's trimmed
/// text is valid up to the end of the line.
pub proof fn lemma_to_end_ok(b: Seq<u8>, d: TextRange, k: int, u: int)
    requires
        source_ok(b),
        sok(b, d, u),
        u <= tlo(b, k),
    ensures
        sok(b, to_end(d, trimmed_range(b, k)), line_hi(b, k)),
{
    lemma_line_facts2(b, k);
}

/// Extending the last entry by line `k` keeps the body valid.
pub proof fn lemma_extend_last_ok(b: Seq<u8>, body: NumPySectionBodyV, k: int, u: int)
    requires
        source_ok(b),
        body_ok(b, body, u),
        u <= tlo(b, k),
    ensures
        body_ok(b, numpy_extend_last(body, trimmed_range(b, k)), line_hi(b, k)),
{
    let t = line_hi(b, k);
    let r = trimmed_range(b, k);
    lemma_line_facts2(b, k);
    lemma_body_ok_mono(b, body, u, t);
    match body {
        NumPySectionBodyV::Parameters(v) => {
            if v.len() > 0 {
                let l = v.last();
                assert(param_ok(b, l, u));
                lemma_extend_opt_ok(b, l.description, k, u);
                lemma_to_end_ok(b, l.range, k, u);
                let v2 = match numpy_extend_last(body, r) {
                    NumPySectionBodyV::Parameters(w) => w,
                    _ => v,
                };
                assert forall|i: int| 0 <= i < v2.len() implies param_ok(b, #[trigger] v2[i], t) by {
                    assert(param_ok(b, v[i], u));
                    lemma_all_sok_mono(b, v[i].names, u, t);
                    if i < v.len() - 1 {
                        assert(v2[i] == v[i]);
                    }
                }
            }
        },
        NumPySectionBodyV::OtherParameters(v) => {
            if v.len() > 0 {
                let l = v.last();
                assert(param_ok(b, l, u));
                lemma_extend_opt_ok(b, l.description, k, u);
                lemma_to_end_ok(b, l.range, k, u);
                let v2 = match numpy_extend_last(body, r) {
                    NumPySectionBodyV::OtherParameters(w) => w,
                    _ => v,
                };
                assert forall|i: int| 0 <= i < v2.len() implies param_ok(b, #[trigger] v2[i], t) by {
                    assert(param_ok(b, v[i], u));
                    lemma_all_sok_mono(b, v[i].names, u, t);
                    if i < v.len() - 1 {
                        assert(v2[i] == v[i]);
                    }
                }
            }
        },
        NumPySectionBodyV::Receives(v) => {
            if v.len() > 0 {
                let l = v.last();
                assert(param_ok(b, l, u));
                lemma_extend_opt_ok(b, l.description, k, u);
                lemma_to_end_ok(b, l.range, k, u);
                let v2 = match numpy_extend_last(body, r) {
                    NumPySectionBodyV::Receives(w) => w,
                    _ => v,
                };
                assert forall|i: int| 0 <= i < v2.len() implies param_ok(b, #[trigger] v2[i], t) by {
                    assert(param_ok(b, v[i], u));
                    lemma_all_sok_mono(b, v[i].names, u, t);
                    if i < v.len() - 1 {
                        assert(v2[i] == v[i]);
                    }
                }
            }
        },
        NumPySectionBodyV::Returns(v) => {
            if v.len() > 0 {
                let l = v.last();
                assert(returns_ok(b, l, u));
                lemma_extend_opt_ok(b, l.description, k, u);
                lemma_to_end_ok(b, l.range, k, u);
                let v2 = match numpy_extend_last(body, r) {
                    NumPySectionBodyV::Returns(w) => w,
                    _ => v,
                };
                assert forall|i: int| 0 <= i < v2.len() implies returns_ok(b, #[trigger] v2[i], t) by {
                    assert(returns_ok(b, v[i], u));
                    if i < v.len() - 1 {
                        assert(v2[i] == v[i]);
                    }
                }
            }
        },
        NumPySectionBodyV::Yields(v) => {
            if v.len() > 0 {
                let l = v.last();
                assert(returns_ok(b, l, u));
                lemma_extend_opt_ok(b, l.description, k, u);
                lemma_to_end_ok(b, l.range, k, u);
                let v2 = match numpy_extend_last(body, r) {
                    NumPySectionBodyV::Yields(w) => w,
                    _ => v,
                };
                assert forall|i: int| 0 <= i < v2.len() implies returns_ok(b, #[trigger] v2[i], t) by {
                    assert(returns_ok(b, v[i], u));
                    if i < v.len() - 1 {
                        assert(v2[i] == v[i]);
                    }
                }
            }
        },
        NumPySectionBodyV::Raises(v) => {
            if v.len() > 0 {
                let l = v.last();
                assert(exception_ok(b, l, u));
                lemma_extend_opt_ok(b, l.description, k, u);
                lemma_to_end_ok(b, l.range, k, u);
                let v2 = match numpy_extend_last(body, r) {
                    NumPySectionBodyV::Raises(w) => w,
                    _ => v,
                };
                assert forall|i: int| 0 <= i < v2.len() implies exception_ok(b, #[trigger] v2[i], t) by {
                    assert(exception_ok(b, v[i], u));
                    if i < v.len() - 1 {
                        assert(v2[i] == v[i]);
                    }
                }
            }
        },
        NumPySectionBodyV::Warns(v) => {
            if v.len() > 0 {
                let l = v.last();
                assert(warning_ok(b, l, u));
                lemma_extend_opt_ok(b, l.description, k, u);
                lemma_to_end_ok(b, l.range, k, u);
                let v2 = match numpy_extend_last(body, r) {
                    NumPySectionBodyV::Warns(w) => w,
                    _ => v,
                };
                assert forall|i: int| 0 <= i < v2.len() implies warning_ok(b, #[trigger] v2[i], t) by {
                    assert(warning_ok(b, v[i], u));
                    if i < v.len() - 1 {
                        assert(v2[i] == v[i]);
                    }
                }
            }
        },
        NumPySectionBodyV::Attributes(v) => {
            if v.len() > 0 {
                let l = v.last();
                assert(attribute_ok(b, l, u));
                lemma_extend_opt_ok(b, l.description, k, u);
                lemma_to_end_ok(b, l.range, k, u);
                let v2 = match numpy_extend_last(body, r) {
                    NumPySectionBodyV::Attributes(w) => w,
                    _ => v,
                };
                assert forall|i: int| 0 <= i < v2.len() implies attribute_ok(b, #[trigger] v2[i], t) by {
                    assert(attribute_ok(b, v[i], u));
                    if i < v.len() - 1 {
                        assert(v2[i] == v[i]);
                    }
                }
            }
        },
        NumPySectionBodyV::Methods(v) => {
            if v.len() > 0 {
                let l = v.last();
                assert(method_ok(b, l, u));
                lemma_extend_opt_ok(b, l.description, k, u);
                lemma_to_end_ok(b, l.range, k, u);
                let v2 = match numpy_extend_last(body, r) {
                    NumPySectionBodyV::Methods(w) => w,
                    _ => v,
                };
                assert forall|i: int| 0 <= i < v2.len() implies method_ok(b, #[trigger] v2[i], t) by {
                    assert(method_ok(b, v[i], u));
                    if i < v.len() - 1 {
                        assert(v2[i] == v[i]);
                    }
                }
            }
        },
        NumPySectionBodyV::SeeAlso(v) => {
            if v.len() > 0 {
                let l = v.last();
                assert(see_also_ok(b, l, u));
                lemma_extend_opt_ok(b, l.description, k, u);
                lemma_to_end_ok(b, l.range, k, u);
                let v2 = match numpy_extend_last(body, r) {
                    NumPySectionBodyV::SeeAlso(w) => w,
                    _ => v,
                };
                assert forall|i: int| 0 <= i < v2.len() implies see_also_ok(b, #[trigger] v2[i], t) by {
                    assert(see_also_ok(b, v[i], u));
                    lemma_all_sok_mono(b, v[i].names, u, t);
                    if i < v.len() - 1 {
                        assert(v2[i] == v[i]);
                    }
                }
            }
        },
        NumPySectionBodyV::References(v) => {
            if v.len() > 0 {
                let l = v.last();
                assert(reference_ok(b, l, u));
                lemma_extend_opt_ok(b, l.content, k, u);
                lemma_to_end_ok(b, l.range, k, u);
                let v2 = match numpy_extend_last(body, r) {
                    NumPySectionBodyV::References(w) => w,
                    _ => v,
                };
                assert forall|i: int| 0 <= i < v2.len() implies reference_ok(b, #[trigger] v2[i], t) by {
                    assert(reference_ok(b, v[i], u));
                    if i < v.len() - 1 {
                        assert(v2[i] == v[i]);
                    }
                }
            }
        },
        _ => {},
    }
}

/// Line `k` of a section keeps its body valid, up to the end of the line.
pub proof fn lemma_body_line_ok(b: Seq<u8>, body: NumPySectionBodyV, indent: Option<int>, k: int, u: int)
    requires
        source_ok(b),
        body_ok(b, body, u),
        u <= tlo(b, k),
    ensures
        body_ok(b, numpy_body_line(b, body, indent, k).0, line_hi(b, k)),
{
    lemma_line_facts2(b, k);
    if numpy_is_entry_body(body) {
        lemma_push_entry_ok(b, body, k, u);
        lemma_extend_last_ok(b, body, k, u);
    } else {
        match body {
            NumPySectionBodyV::Warnings(x) => lemma_extend_opt_ok(b, x, k, u),
            NumPySectionBodyV::Notes(x) => lemma_extend_opt_ok(b, x, k, u),
            NumPySectionBodyV::Examples(x) => lemma_extend_opt_ok(b, x, k, u),
            NumPySectionBodyV::Unknown(x) => lemma_extend_opt_ok(b, x, k, u),
            _ => {},
        }
    }
}

/// The empty body of any kind is valid.
pub proof fn lemma_empty_body_ok(b: Seq<u8>, kind: NumPySectionKind, u: int)
    ensures
        body_ok(b, numpy_empty_body(kind), u),
{
}

// ===========================================================================
// The section phase
// ===========================================================================

/// What holds of the section-phase state before line `k`.
pub open spec fn state_ok(b: Seq<u8>, st: NumPyStateV, k: int) -> bool {
    let u = line_lo(b, k);
    &&& (forall|i: int| 0 <= i < st.items.len() ==> item_ok(b, #[trigger] st.items[i], u))
    &&& items_ordered(st.items)
    &&& match st.current {
        Some((h, body)) => {
            &&& header_ok(b, h, u)
            &&& body_ok(b, body, u)
            &&& last_nonblank_before(b, 0, k) >= 0
            &&& h.range.lo() <= thi(b, last_nonblank_before(b, 0, k))
            &&& forall|i: int|
                0 <= i < st.items.len() ==> item_range(#[trigger] st.items[i]).hi() <= h.range.lo()
        },
        None => true,
    }
}

/// Flushing the pending section at line `k` keeps the items valid and
/// ordered, all ending before line `k`.
pub proof fn lemma_flush_ok(b: Seq<u8>, st: NumPyStateV, k: int)
    requires
        source_ok(b),
        0 <= k,
        state_ok(b, st, k),
    ensures
        forall|i: int|
            0 <= i < numpy_flush(b, st.items, st.current, k).len() ==> item_ok(
                b,
                #[trigger] numpy_flush(b, st.items, st.current, k)[i],
                line_lo(b, k),
            ),
        items_ordered(numpy_flush(b, st.items, st.current, k)),
        forall|i: int|
            0 <= i < numpy_flush(b, st.items, st.current, k).len() ==> item_range(
                #[trigger] numpy_flush(b, st.items, st.current, k)[i],
            ).hi() <= line_lo(b, k),
{
    let u = line_lo(b, k);
    let items = numpy_flush(b, st.items, st.current, k);
    assert forall|i: int| 0 <= i < st.items.len() implies item_range(#[trigger] st.items[i]).hi()
        <= u by {
        assert(item_ok(b, st.items[i], u));
    }
    match st.current {
        Some((h, body)) => {
            let l = last_nonblank_before(b, 0, k);
            lemma_last_nonblank(b, k);
            lemma_line_facts(b, l);
            lemma_line_bounds(b, l);
            lemma_line_order(b, l, k);
            lemma_mk_sok(b, h.range.lo(), thi(b, l), u);
            assert(section_range(b, h.range.lo(), k) == mk_range(h.range.lo(), thi(b, l)));
            assert forall|i: int| 0 <= i < items.len() implies item_ok(b, #[trigger] items[i], u) by {
                if i < st.items.len() {
                    assert(items[i] == st.items[i]);
                }
            }
            assert forall|i: int, j: int| 0 <= i < j < items.len() implies item_range(
                #[trigger] items[i],
            ).hi() <= item_range(#[trigger] items[j]).lo() by {
                assert(items[i] == st.items[i]);
                if j < st.items.len() {
                    assert(items[j] == st.items[j]);
                }
            }
            assert forall|i: int| 0 <= i < items.len() implies item_range(#[trigger] items[i]).hi()
                <= u by {
                if i < st.items.len() {
                    assert(items[i] == st.items[i]);
                }
            }
        },
        None => {},
    }
}

/// A content line keeps the invariant.
pub proof fn lemma_line_ok(b: Seq<u8>, st: NumPyStateV, k: int)
    requires
        source_ok(b),
        0 <= k < line_count(b),
        !is_blank(b, k),
        state_ok(b, st, k),
    ensures
        state_ok(b, numpy_line(b, st, k), k + 1),
{
    let u = line_lo(b, k);
    let u2 = line_lo(b, k + 1);
    lemma_line_facts2(b, k);
    lemma_line_bounds(b, k);
    lemma_line_order(b, k, k + 1);
    assert(last_nonblank_before(b, 0, k + 1) == k);
    let st2 = numpy_line(b, st, k);
    assert forall|i: int| 0 <= i < st.items.len() implies item_ok(b, #[trigger] st.items[i], u2) by {
        lemma_item_ok_mono(b, st.items[i], u, u2);
    }
    match st.current {
        Some((h, body)) => {
            lemma_body_line_ok(b, body, st.entry_indent, k, u);
            lemma_body_ok_mono(b, numpy_body_line(b, body, st.entry_indent, k).0, line_hi(b, k), u2);
            let l = last_nonblank_before(b, 0, k);
            lemma_line_facts(b, l);
            lemma_last_nonblank(b, k);
            lemma_line_order(b, l, k);
        },
        None => {
            let items = st2.items;
            assert forall|i: int| 0 <= i < st.items.len() implies item_range(#[trigger] st.items[i]).hi()
                <= u by {
                assert(item_ok(b, st.items[i], u));
            }
            assert forall|i: int| 0 <= i < items.len() implies item_ok(b, #[trigger] items[i], u2) by {
                if i < st.items.len() {
                    assert(items[i] == st.items[i]);
                }
            }
            assert forall|i: int, j: int| 0 <= i < j < items.len() implies item_range(
                #[trigger] items[i],
            ).hi() <= item_range(#[trigger] items[j]).lo() by {
                assert(items[i] == st.items[i]);
                if j < st.items.len() {
                    assert(items[j] == st.items[j]);
                }
            }
        },
    }
}

/// The section phase from line `k` keeps the invariant up to the end.
pub proof fn lemma_sections_ok(b: Seq<u8>, k: int, st: NumPyStateV)
    requires
        source_ok(b),
        0 <= k <= line_count(b),
        state_ok(b, st, k),
    ensures
        state_ok(b, numpy_sections(b, k, st), line_count(b)),
    decreases line_count(b) - k,
{
    let n = line_count(b);
    if k < n {
        let u = line_lo(b, k);
        lemma_line_bounds(b, k);
        lemma_line_order(b, k, k + 1);
        if is_blank(b, k) {
            let u2 = line_lo(b, k + 1);
            assert(last_nonblank_before(b, 0, k + 1) == last_nonblank_before(b, 0, k));
            assert forall|i: int| 0 <= i < st.items.len() implies item_ok(b, #[trigger] st.items[i], u2) by {
                lemma_item_ok_mono(b, st.items[i], u, u2);
            }
            match st.current {
                Some((h, body)) => lemma_body_ok_mono(b, body, u, u2),
                None => {},
            }
            lemma_sections_ok(b, k + 1, st);
        } else {
            match numpy_header(b, k) {
                Some(h) => {
                    lemma_header_ok(b, k);
                    lemma_line_facts(b, k);
                    lemma_line_facts(b, k + 1);
                    lemma_line_bounds(b, k + 1);
                    lemma_line_order(b, k + 1, k + 2);
                    let u2 = line_lo(b, k + 2);
                    lemma_flush_ok(b, st, k);
                    let st2 = NumPyStateV {
                        items: numpy_flush(b, st.items, st.current, k),
                        current: Some((h, numpy_empty_body(h.kind))),
                        entry_indent: None,
                        failed: st.failed,
                    };
                    assert(last_nonblank_before(b, 0, k + 2) == k + 1);
                    assert forall|i: int| 0 <= i < st2.items.len() implies item_ok(
                        b,
                        #[trigger] st2.items[i],
                        u2,
                    ) by {
                        lemma_item_ok_mono(b, st2.items[i], u, u2);
                    }
                    lemma_empty_body_ok(b, h.kind, u2);
                    assert(state_ok(b, st2, k + 2));
                    lemma_sections_ok(b, k + 2, st2);
                },
                None => {
                    lemma_line_ok(b, st, k);
                    lemma_sections_ok(b, k + 1, numpy_line(b, st, k));
                },
            }
        }
    }
}

// ===========================================================================
// The parts before the sections
// ===========================================================================

/// `summary_end` moves past the summary paragraph.
pub proof fn lemma_summary_end(b: Seq<u8>, k: int)
    requires
        0 <= k <= line_count(b),
    ensures
        k <= summary_end(b, k) <= line_count(b),
        k < line_count(b) && numpy_header(b, k) is None && !is_blank(b, k) ==> k < summary_end(b, k),
    decreases line_count(b) - k,
{
    if k < line_count(b) && numpy_header(b, k) is None && !is_blank(b, k) {
        lemma_summary_end(b, k + 1);
    }
}

/// The next header line from `k` lies in `[k, line_count]`.
pub proof fn lemma_next_header(b: Seq<u8>, k: int)
    requires
        0 <= k <= line_count(b),
    ensures
        k <= next_header(b, k) <= line_count(b),
    decreases line_count(b) - k,
{
    if k < line_count(b) && numpy_header(b, k) is None {
        lemma_next_header(b, k + 1);
    }
}

/// The next dedented line from `k` lies in `[k, line_count]`.
pub proof fn lemma_dedent_line(b: Seq<u8>, k: int, base: int)
    requires
        0 <= k,
    ensures
        k <= dedent_line(b, k, base),
        k <= line_count(b) ==> dedent_line(b, k, base) <= line_count(b),
    decreases line_count(b) - k,
{
    if k < line_count(b) && (is_blank(b, k) || crate::cursor::indent_cols(b, k) > base) {
        lemma_dedent_line(b, k + 1, base);
    }
}

/// A non-blank line of `[lo, k)` is at or before the last one.
pub proof fn lemma_last_nonblank_max(b: Seq<u8>, lo: int, k: int, j: int)
    requires
        lo <= j < k,
        !is_blank(b, j),
    ensures
        j <= last_nonblank_before(b, lo, k) < k,
    decreases k - lo,
{
    if k - 1 != j && is_blank(b, k - 1) {
        lemma_last_nonblank_max(b, lo, k - 1, j);
    } else if k - 1 != j {
    }
}

/// The content range of lines `[f, l]` is valid.
pub proof fn lemma_lines_range_ok(b: Seq<u8>, f: int, l: int)
    requires
        source_ok(b),
        0 <= f <= l,
    ensures
        sok(b, mk_range(tlo(b, f), thi(b, l)), b.len() as int),
        tlo(b, f) <= thi(b, l),
{
    lemma_line_facts(b, f);
    lemma_line_facts(b, l);
    if f < l {
        lemma_line_order(b, f, l);
    }
    lemma_mk_sok(b, tlo(b, f), thi(b, l), b.len() as int);
}

/// The deprecation directive's ranges are valid.
pub proof fn lemma_deprecation_ok(b: Seq<u8>, p: int)
    requires
        source_ok(b),
        0 <= p,
        is_deprecation(b, p),
    ensures
        deprecation_ok(b, numpy_deprecation(b, p).0, b.len() as int),
        p + 1 <= numpy_deprecation(b, p).1 <= line_count(b),
{
    let n = b.len() as int;
    lemma_line_facts(b, p);
    let ts = tlo(b, p);
    let te = thi(b, p);
    reveal_strlit(".. deprecated::");
    lemma_ascii_literal(".. deprecated::");
    assert(vstd::string::is_ascii(".. deprecated::"));
    lemma_ascii_literal(".. deprecated::");
    let lit = ".. deprecated::".spec_bytes();
    assert(lit.len() == 15);
    assert(te - ts >= 15);
    assert(b[ts + 1] == lit[1]);
    assert(b[ts + 2] == lit[2]);
    assert(b[ts + 12] == lit[12]);
    assert(b[ts + 14] == lit[14]);
    lemma_ascii_boundary(b, ts + 1);
    lemma_ascii_boundary(b, ts + 2);
    lemma_ascii_boundary(b, ts + 12);
    lemma_ascii_boundary(b, ts + 14);
    lemma_mk_sok(b, ts, ts + 2, n);
    lemma_mk_sok(b, ts + 3, ts + 13, n);
    lemma_mk_sok(b, ts + 13, ts + 15, n);
    lemma_trim_boundary(b, ts + 15, te);
    lemma_skip_ws_bounds(b, ts + 15, te);
    lemma_skip_ws_back_bounds(b, trim_lo(b, ts + 15, te), te);
    lemma_mk_sok(b, trim_lo(b, ts + 15, te), trim_hi(b, ts + 15, te), n);
    let base = crate::cursor::indent_cols(b, p);
    lemma_dedent_line(b, p + 1, base);
    let q = dedent_line(b, p + 1, base);
    let f = first_nonblank_from(b, p + 1);
    lemma_first_nonblank(b, p + 1);
    if f < q {
        lemma_last_nonblank_max(b, p + 1, q, f);
        let l = last_nonblank_before(b, p + 1, q);
        lemma_lines_range_ok(b, f, l);
        lemma_line_order(b, p, f);
        lemma_line_facts(b, f);
        lemma_line_facts(b, l);
        assert(ts <= thi(b, p) <= tlo(b, f) <= thi(b, l));
        lemma_mk_sok(b, ts, thi(b, l), n);
    } else {
        lemma_mk_sok(b, ts, te, n);
    }
}

/// The parts before the sections of the parse of `b` are valid.
pub proof fn lemma_numpy_preamble_ok(b: Seq<u8>)
    requires
        source_ok(b),
    ensures
        osok(b, numpy_parse(b).summary, b.len() as int),
        numpy_parse(b).deprecation matches Some(x) ==> deprecation_ok(b, x, b.len() as int),
        osok(b, numpy_parse(b).extended_summary, b.len() as int),
        0 <= numpy_parse(b).sections_from <= line_count(b),
{
    let n = line_count(b);
    lemma_first_nonblank(b, 0);
    let s0 = first_nonblank_from(b, 0);
    if s0 < n {
        lemma_summary_end(b, s0);
        if numpy_header(b, s0) is None {
            lemma_lines_range_ok(b, s0, summary_end(b, s0) - 1);
        }
        let e1 = after_summary(b, s0);
        lemma_first_nonblank(b, e1);
        let p = first_nonblank_from(b, e1);
        if is_deprecation(b, p) {
            lemma_deprecation_ok(b, p);
            lemma_first_nonblank(b, numpy_deprecation(b, p).1);
        }
        let x = after_deprecation(b, p);
        lemma_summary_end(b, s0);
        if has_extended(b, x) {
            lemma_next_header(b, x);
            let l = last_nonblank_before(b, x, next_header(b, x));
            if l >= x {
                lemma_lines_range_ok(b, x, l);
            }
        }
    }
}

/// The items of the parse of `b` are valid and ordered.
pub proof fn lemma_numpy_items_ok(b: Seq<u8>)
    requires
        source_ok(b),
    ensures
        forall|i: int|
            0 <= i < numpy_items(b).len() ==> item_ok(b, #[trigger] numpy_items(b)[i], b.len() as int),
        items_ordered(numpy_items(b)),
{
    let n = line_count(b);
    lemma_line_lo_end(b);
    lemma_first_nonblank(b, 0);
    let s0 = first_nonblank_from(b, 0);
    if s0 < n {
        lemma_numpy_preamble_ok(b);
        let e2 = numpy_parse(b).sections_from;
        lemma_sections_ok(b, e2, init_numpy_state());
        let end = numpy_sections(b, e2, init_numpy_state());
        lemma_flush_ok(b, end, n);
    } else {
        assert(numpy_items(b) =~= seq![]);
    }
}

/// Law: every range of a NumPy-style parse (summary, deprecation, extended
/// summary, items, headers and entries) can be sliced out of the source: it
/// lies inside it and both its ends are character boundaries; and the
/// sections and stray lines come in document order without overlapping.
pub proof fn law_numpy_ranges(input: &str, d: NumPyDocstringV)
    requires
        input.spec_bytes().len() <= u32::MAX,
        is_numpy_parse(input, d),
    ensures
        numpy_doc_ok(input.spec_bytes(), d),
{
    let b = input.spec_bytes();
    vstd::utf8::encode_utf8_valid_utf8(input@);
    crate::utf8::lemma_boundary_iff_not_continuation(b, b.len() as int);
    lemma_numpy_preamble_ok(b);
    lemma_numpy_items_ok(b);
    if !numpy_parse(b).empty {
        lemma_mk_sok(b, 0, b.len() as int, b.len() as int);
    }
}

/// Law: a docstring whose every line is blank parses to the empty docstring
/// (empty range, no summary, no deprecation, no extended summary, no items);
/// any other docstring's range covers the whole input.
pub proof fn law_numpy_extent(input: &str, d: NumPyDocstringV)
    requires
        is_numpy_parse(input, d),
    ensures
        all_blank(input.spec_bytes()) ==> d.range == TextRange::spec_empty() && d.summary is None
            && d.deprecation is None && d.extended_summary is None && d.items.len() == 0,
        !all_blank(input.spec_bytes()) ==> d.range == mk_range(0, input.spec_bytes().len() as int),
{
    lemma_first_nonblank_none(input.spec_bytes(), 0);
}

/// The section kind that the variant of `body` belongs to.
pub open spec fn numpy_body_kind(body: NumPySectionBodyV) -> NumPySectionKind {
    match body {
        NumPySectionBodyV::Parameters(_) => NumPySectionKind::Parameters,
        NumPySectionBodyV::Returns(_) => NumPySectionKind::Returns,
        NumPySectionBodyV::Yields(_) => NumPySectionKind::Yields,
        NumPySectionBodyV::Receives(_) => NumPySectionKind::Receives,
        NumPySectionBodyV::OtherParameters(_) => NumPySectionKind::OtherParameters,
        NumPySectionBodyV::Raises(_) => NumPySectionKind::Raises,
        NumPySectionBodyV::Warns(_) => NumPySectionKind::Warns,
        NumPySectionBodyV::Warnings(_) => NumPySectionKind::Warnings,
        NumPySectionBodyV::SeeAlso(_) => NumPySectionKind::SeeAlso,
        NumPySectionBodyV::Notes(_) => NumPySectionKind::Notes,
        NumPySectionBodyV::References(_) => NumPySectionKind::References,
        NumPySectionBodyV::Examples(_) => NumPySectionKind::Examples,
        NumPySectionBodyV::Attributes(_) => NumPySectionKind::Attributes,
        NumPySectionBodyV::Methods(_) => NumPySectionKind::Methods,
        NumPySectionBodyV::Unknown(_) => NumPySectionKind::Unknown,
    }
}

/// Every section among `items` has a body of its header's kind.
pub open spec fn numpy_bodies_match(items: Seq<NumPyDocstringItemV>) -> bool {
    forall|i: int|
        0 <= i < items.len() ==> (#[trigger] items[i] matches NumPyDocstringItemV::Section(s)
            ==> numpy_body_kind(s.body) == s.header.kind)
}

/// The kind of header `h` is the one its name text in `b` names, matched
/// ASCII case-insensitively.
pub open spec fn numpy_header_named(b: Seq<u8>, h: NumPySectionHeader) -> bool {
    h.kind == numpy_kind(lower_seq(b.subrange(h.name.lo(), h.name.hi())))
}

/// Every section among `items` has a header whose kind its name text names.
pub open spec fn numpy_headers_named(b: Seq<u8>, items: Seq<NumPyDocstringItemV>) -> bool {
    forall|i: int|
        0 <= i < items.len() ==> (#[trigger] items[i] matches NumPyDocstringItemV::Section(s)
            ==> numpy_header_named(b, s.header))
}

/// The sections of `st`, and its open one, have bodies of their headers'
/// kinds and headers whose kinds their names name.
pub open spec fn numpy_state_kinds(b: Seq<u8>, st: NumPyStateV) -> bool {
    &&& numpy_bodies_match(st.items)
    &&& numpy_headers_named(b, st.items)
    &&& st.current matches Some((h, body)) ==> numpy_body_kind(body) == h.kind && numpy_header_named(b, h)
}

/// Flushing keeps every section's body of its header's kind, and every
/// header's kind the one its name names.
proof fn lemma_flush_kinds(b: Seq<u8>, st: NumPyStateV, k: int)
    requires
        numpy_state_kinds(b, st),
    ensures
        numpy_bodies_match(numpy_flush(b, st.items, st.current, k)),
        numpy_headers_named(b, numpy_flush(b, st.items, st.current, k)),
{
    let items = numpy_flush(b, st.items, st.current, k);
    assert forall|i: int| 0 <= i < items.len() implies (#[trigger] items[i] matches NumPyDocstringItemV::Section(s)
        ==> numpy_body_kind(s.body) == s.header.kind && numpy_header_named(b, s.header)) by {
        if i < st.items.len() {
            assert(items[i] == st.items[i]);
        }
    }
}

/// A header read from line `k` has the kind its name text names.
proof fn lemma_header_named(b: Seq<u8>, k: int)
    requires
        b.len() <= u32::MAX,
        numpy_header(b, k) is Some,
    ensures
        numpy_header_named(b, numpy_header(b, k)->0),
{
    lemma_line_bounds(b, k);
}

/// The section phase keeps every section's body of its header's kind, and
/// every header's kind the one its name names.
proof fn lemma_sections_kinds(b: Seq<u8>, k: int, st: NumPyStateV)
    requires
        b.len() <= u32::MAX,
        numpy_state_kinds(b, st),
    ensures
        numpy_state_kinds(b, numpy_sections(b, k, st)),
    decreases line_count(b) - k,
{
    if k < line_count(b) {
        if is_blank(b, k) {
            lemma_sections_kinds(b, k + 1, st);
        } else {
            match numpy_header(b, k) {
                Some(h) => {
                    lemma_flush_kinds(b, st, k);
                    lemma_header_named(b, k);
                    let st2 = NumPyStateV {
                        items: numpy_flush(b, st.items, st.current, k),
                        current: Some((h, numpy_empty_body(h.kind))),
                        entry_indent: None,
                        failed: st.failed,
                    };
                    if k + 2 <= line_count(b) {
                        lemma_sections_kinds(b, k + 2, st2);
                    }
                },
                None => {
                    let st2 = numpy_line(b, st, k);
                    assert(numpy_state_kinds(b, st2)) by {
                        if st.current is None {
                            assert forall|i: int| 0 <= i < st2.items.len() implies (#[trigger] st2.items[i] matches NumPyDocstringItemV::Section(s)
                                ==> numpy_body_kind(s.body) == s.header.kind && numpy_header_named(b, s.header)) by {
                                if i < st.items.len() {
                                    assert(st2.items[i] == st.items[i]);
                                }
                            }
                        }
                    }
                    lemma_sections_kinds(b, k + 1, st2);
                },
            }
        }
    }
}

/// The sections of the parse of `b` have bodies of their headers' kinds and
/// headers whose kinds their names name.
proof fn lemma_items_kinds(b: Seq<u8>)
    requires
        b.len() <= u32::MAX,
    ensures
        numpy_bodies_match(numpy_items(b)),
        numpy_headers_named(b, numpy_items(b)),
{
    let p = numpy_parse(b);
    if !p.empty {
        lemma_sections_kinds(b, p.sections_from, init_numpy_state());
    }
    lemma_flush_kinds(b, p.end, line_count(b));
}

/// Law: the body of every section of a NumPy-style parse is of the kind its
/// header names (a `Parameters` header has a `Parameters` body, and so on).
pub proof fn law_numpy_section_bodies(input: &str, d: NumPyDocstringV)
    requires
        input.spec_bytes().len() <= u32::MAX,
        is_numpy_parse(input, d),
    ensures
        numpy_bodies_match(d.items),
{
    lemma_items_kinds(input.spec_bytes());
}

/// Law: the kind stored in every section header of a NumPy-style parse is
/// the one its name text names, lowercased: what `section_kind` computes
/// from the source.
pub proof fn law_numpy_header_kinds(input: &str, d: NumPyDocstringV)
    requires
        input.spec_bytes().len() <= u32::MAX,
        is_numpy_parse(input, d),
    ensures
        numpy_headers_named(input.spec_bytes(), d.items),
{
    lemma_items_kinds(input.spec_bytes());
}

/// Every item among `items` has a non-empty range.
pub open spec fn numpy_items_nonempty(items: Seq<NumPyDocstringItemV>) -> bool {
    forall|i: int| 0 <= i < items.len() ==> item_range(#[trigger] items[i]).lo() < item_range(items[i]).hi()
}

/// The items read so far have non-empty ranges, and the pending section's
/// header starts before the end of the last non-blank line before `k`.
pub open spec fn numpy_run_nonempty(b: Seq<u8>, st: NumPyStateV, k: int) -> bool {
    &&& numpy_items_nonempty(st.items)
    &&& st.current matches Some((h, body)) ==> last_nonblank_before(b, 0, k) >= 0 && h.range.lo() < thi(
        b,
        last_nonblank_before(b, 0, k),
    )
}

/// Flushing at line `k` keeps every item non-empty.
proof fn lemma_numpy_flush_nonempty(b: Seq<u8>, st: NumPyStateV, k: int)
    requires
        b.len() <= u32::MAX,
        numpy_run_nonempty(b, st, k),
    ensures
        numpy_items_nonempty(numpy_flush(b, st.items, st.current, k)),
{
    let items = numpy_flush(b, st.items, st.current, k);
    if let Some((h, body)) = st.current {
        lemma_line_bounds(b, last_nonblank_before(b, 0, k));
    }
    assert forall|i: int| 0 <= i < items.len() implies item_range(#[trigger] items[i]).lo() < item_range(
        items[i],
    ).hi() by {
        if i < st.items.len() {
            assert(items[i] == st.items[i]);
        }
    }
}

/// The section phase keeps the items non-empty, up to the end.
proof fn lemma_sections_nonempty(b: Seq<u8>, k: int, st: NumPyStateV)
    requires
        b.len() <= u32::MAX,
        0 <= k <= line_count(b),
        numpy_run_nonempty(b, st, k),
    ensures
        numpy_run_nonempty(b, numpy_sections(b, k, st), line_count(b)),
    decreases line_count(b) - k,
{
    if k < line_count(b) {
        lemma_line_bounds(b, k);
        if is_blank(b, k) {
            assert(last_nonblank_before(b, 0, k + 1) == last_nonblank_before(b, 0, k));
            lemma_sections_nonempty(b, k + 1, st);
        } else {
            assert(last_nonblank_before(b, 0, k + 1) == k);
            match numpy_header(b, k) {
                Some(h) => {
                    lemma_numpy_flush_nonempty(b, st, k);
                    lemma_line_bounds(b, k + 1);
                    lemma_line_order(b, k, k + 1);
                    assert(!is_blank(b, k + 1));
                    assert(last_nonblank_before(b, 0, k + 2) == k + 1);
                    let st2 = NumPyStateV {
                        items: numpy_flush(b, st.items, st.current, k),
                        current: Some((h, numpy_empty_body(h.kind))),
                        entry_indent: None,
                        failed: st.failed,
                    };
                    lemma_sections_nonempty(b, k + 2, st2);
                },
                None => {
                    let st2 = numpy_line(b, st, k);
                    if let Some((h, body)) = st.current {
                        let l = last_nonblank_before(b, 0, k);
                        lemma_last_nonblank_in(b, 0, k);
                        lemma_line_bounds(b, l);
                        lemma_line_order(b, l, k);
                    } else {
                        assert forall|i: int| 0 <= i < st2.items.len() implies item_range(
                            #[trigger] st2.items[i],
                        ).lo() < item_range(st2.items[i]).hi() by {
                            if i < st.items.len() {
                                assert(st2.items[i] == st.items[i]);
                            }
                        }
                    }
                    lemma_sections_nonempty(b, k + 1, st2);
                },
            }
        }
    }
}

/// Law: every item of a NumPy-style parse (section or stray line) has a
/// non-empty range, so with the document order of `law_numpy_ranges` the
/// items start at strictly increasing offsets: sections appear in the order
/// of their header lines and do not overlap.
pub proof fn law_numpy_items_nonempty(input: &str, d: NumPyDocstringV)
    requires
        input.spec_bytes().len() <= u32::MAX,
        is_numpy_parse(input, d),
    ensures
        numpy_items_nonempty(d.items),
        forall|i: int, j: int|
            0 <= i < j < d.items.len() ==> item_range(#[trigger] d.items[i]).lo() < item_range(
                #[trigger] d.items[j],
            ).lo(),
{
    let b = input.spec_bytes();
    law_numpy_ranges(input, d);
    let p = numpy_parse(b);
    if !p.empty {
        vstd::utf8::encode_utf8_valid_utf8(input@);
        lemma_numpy_preamble_ok(b);
        lemma_sections_nonempty(b, p.sections_from, init_numpy_state());
    }
    lemma_numpy_flush_nonempty(b, p.end, line_count(b));
    assert forall|i: int, j: int| 0 <= i < j < d.items.len() implies item_range(#[trigger] d.items[i]).lo()
        < item_range(#[trigger] d.items[j]).lo() by {
        assert(item_range(d.items[i]).lo() < item_range(d.items[i]).hi());
    }
}

/// The number of entries of an entry section body (0 for free text).
pub open spec fn numpy_entry_count(body: NumPySectionBodyV) -> int {
    match body {
        NumPySectionBodyV::Parameters(v) => v.len() as int,
        NumPySectionBodyV::OtherParameters(v) => v.len() as int,
        NumPySectionBodyV::Receives(v) => v.len() as int,
        NumPySectionBodyV::Returns(v) => v.len() as int,
        NumPySectionBodyV::Yields(v) => v.len() as int,
        NumPySectionBodyV::Raises(v) => v.len() as int,
        NumPySectionBodyV::Warns(v) => v.len() as int,
        NumPySectionBodyV::Attributes(v) => v.len() as int,
        NumPySectionBodyV::Methods(v) => v.len() as int,
        NumPySectionBodyV::SeeAlso(v) => v.len() as int,
        NumPySectionBodyV::References(v) => v.len() as int,
        _ => 0,
    }
}

/// The range of entry `i` of an entry section body.
pub open spec fn numpy_entry_span(body: NumPySectionBodyV, i: int) -> TextRange {
    match body {
        NumPySectionBodyV::Parameters(v) => v[i].range,
        NumPySectionBodyV::OtherParameters(v) => v[i].range,
        NumPySectionBodyV::Receives(v) => v[i].range,
        NumPySectionBodyV::Returns(v) => v[i].range,
        NumPySectionBodyV::Yields(v) => v[i].range,
        NumPySectionBodyV::Raises(v) => v[i].range,
        NumPySectionBodyV::Warns(v) => v[i].range,
        NumPySectionBodyV::Attributes(v) => v[i].range,
        NumPySectionBodyV::Methods(v) => v[i].range,
        NumPySectionBodyV::SeeAlso(v) => v[i].range,
        NumPySectionBodyV::References(v) => v[i].range,
        _ => TextRange::spec_empty(),
    }
}

/// The description of entry `i` of an entry section body (a reference's
/// content).
pub open spec fn numpy_entry_desc(body: NumPySectionBodyV, i: int) -> Option<TextRange> {
    match body {
        NumPySectionBodyV::Parameters(v) => v[i].description,
        NumPySectionBodyV::OtherParameters(v) => v[i].description,
        NumPySectionBodyV::Receives(v) => v[i].description,
        NumPySectionBodyV::Returns(v) => v[i].description,
        NumPySectionBodyV::Yields(v) => v[i].description,
        NumPySectionBodyV::Raises(v) => v[i].description,
        NumPySectionBodyV::Warns(v) => v[i].description,
        NumPySectionBodyV::Attributes(v) => v[i].description,
        NumPySectionBodyV::Methods(v) => v[i].description,
        NumPySectionBodyV::SeeAlso(v) => v[i].description,
        NumPySectionBodyV::References(v) => v[i].content,
        _ => None,
    }
}

/// `new` is `old` but for the range and description of its last entry: same
/// section kind, same entries before the last, and the last entry's other
/// parts (names, type, colon, ...) unchanged.
pub open spec fn numpy_differs_in_last_text(old: NumPySectionBodyV, new: NumPySectionBodyV) -> bool {
    match (old, new) {
        (NumPySectionBodyV::Parameters(v), NumPySectionBodyV::Parameters(w)) => v.len() == w.len()
            && v.drop_last() == w.drop_last() && NumPyParameterV {
            range: v.last().range,
            description: v.last().description,
            ..w.last()
        } == v.last(),
        (NumPySectionBodyV::OtherParameters(v), NumPySectionBodyV::OtherParameters(w)) => v.len() == w.len()
            && v.drop_last() == w.drop_last() && NumPyParameterV {
            range: v.last().range,
            description: v.last().description,
            ..w.last()
        } == v.last(),
        (NumPySectionBodyV::Receives(v), NumPySectionBodyV::Receives(w)) => v.len() == w.len()
            && v.drop_last() == w.drop_last() && NumPyParameterV {
            range: v.last().range,
            description: v.last().description,
            ..w.last()
        } == v.last(),
        (NumPySectionBodyV::Returns(v), NumPySectionBodyV::Returns(w)) => v.len() == w.len()
            && v.drop_last() == w.drop_last() && NumPyReturns {
            range: v.last().range,
            description: v.last().description,
            ..w.last()
        } == v.last(),
        (NumPySectionBodyV::Yields(v), NumPySectionBodyV::Yields(w)) => v.len() == w.len()
            && v.drop_last() == w.drop_last() && NumPyReturns {
            range: v.last().range,
            description: v.last().description,
            ..w.last()
        } == v.last(),
        (NumPySectionBodyV::Raises(v), NumPySectionBodyV::Raises(w)) => v.len() == w.len()
            && v.drop_last() == w.drop_last() && NumPyException {
            range: v.last().range,
            description: v.last().description,
            ..w.last()
        } == v.last(),
        (NumPySectionBodyV::Warns(v), NumPySectionBodyV::Warns(w)) => v.len() == w.len()
            && v.drop_last() == w.drop_last() && NumPyWarning {
            range: v.last().range,
            description: v.last().description,
            ..w.last()
        } == v.last(),
        (NumPySectionBodyV::Attributes(v), NumPySectionBodyV::Attributes(w)) => v.len() == w.len()
            && v.drop_last() == w.drop_last() && NumPyAttribute {
            range: v.last().range,
            description: v.last().description,
            ..w.last()
        } == v.last(),
        (NumPySectionBodyV::Methods(v), NumPySectionBodyV::Methods(w)) => v.len() == w.len()
            && v.drop_last() == w.drop_last() && NumPyMethod {
            range: v.last().range,
            description: v.last().description,
            ..w.last()
        } == v.last(),
        (NumPySectionBodyV::SeeAlso(v), NumPySectionBodyV::SeeAlso(w)) => v.len() == w.len()
            && v.drop_last() == w.drop_last() && SeeAlsoItemV {
            range: v.last().range,
            description: v.last().description,
            ..w.last()
        } == v.last(),
        (NumPySectionBodyV::References(v), NumPySectionBodyV::References(w)) => v.len() == w.len()
            && v.drop_last() == w.drop_last() && NumPyReference {
            range: v.last().range,
            content: v.last().content,
            ..w.last()
        } == v.last(),
        _ => false,
    }
}

/// Law: in every NumPy entry section, a line `k` indented deeper than the
/// entries becomes part of the last entry's description, whatever the
/// section kind: only the last entry's range and description change, the
/// description is present and ends, as the entry's range does, at the end of
/// the line's trimmed text, and it starts where it started when it was
/// present and not empty, and at the line's first non-whitespace byte
/// otherwise. Reading such a line never fails.
pub proof fn law_numpy_continuation_line(b: Seq<u8>, body: NumPySectionBodyV, base: int, k: int)
    requires
        b.len() <= u32::MAX,
        numpy_is_entry_body(body),
        numpy_entry_count(body) > 0,
        indent_cols(b, k) > base,
    ensures
        ({
            let r = numpy_body_line(b, body, Some(base), k);
            let n = numpy_entry_count(body);
            let old_desc = numpy_entry_desc(body, n - 1);
            &&& r.1 == Some(base)
            &&& !r.2
            &&& numpy_differs_in_last_text(body, r.0)
            &&& numpy_entry_count(r.0) == n
            &&& numpy_entry_span(r.0, n - 1).lo() == numpy_entry_span(body, n - 1).lo()
            &&& numpy_entry_span(r.0, n - 1).hi() == thi(b, k)
            &&& numpy_entry_desc(r.0, n - 1) is Some
            &&& numpy_entry_desc(r.0, n - 1)->0.hi() == thi(b, k)
            &&& numpy_entry_desc(r.0, n - 1)->0.lo() == (if old_desc matches Some(d) && d.lo() != d.hi() {
                old_desc->0.lo()
            } else {
                tlo(b, k)
            })
        }),
{
    lemma_line_bounds(b, k);
    let r = numpy_body_line(b, body, Some(base), k).0;
    match body {
        NumPySectionBodyV::Parameters(v) => match r {
            NumPySectionBodyV::Parameters(w) => assert(w.drop_last() =~= v.drop_last()),
            _ => {},
        },
        NumPySectionBodyV::OtherParameters(v) => match r {
            NumPySectionBodyV::OtherParameters(w) => assert(w.drop_last() =~= v.drop_last()),
            _ => {},
        },
        NumPySectionBodyV::Receives(v) => match r {
            NumPySectionBodyV::Receives(w) => assert(w.drop_last() =~= v.drop_last()),
            _ => {},
        },
        NumPySectionBodyV::Returns(v) => match r {
            NumPySectionBodyV::Returns(w) => assert(w.drop_last() =~= v.drop_last()),
            _ => {},
        },
        NumPySectionBodyV::Yields(v) => match r {
            NumPySectionBodyV::Yields(w) => assert(w.drop_last() =~= v.drop_last()),
            _ => {},
        },
        NumPySectionBodyV::Raises(v) => match r {
            NumPySectionBodyV::Raises(w) => assert(w.drop_last() =~= v.drop_last()),
            _ => {},
        },
        NumPySectionBodyV::Warns(v) => match r {
            NumPySectionBodyV::Warns(w) => assert(w.drop_last() =~= v.drop_last()),
            _ => {},
        },
        NumPySectionBodyV::Attributes(v) => match r {
            NumPySectionBodyV::Attributes(w) => assert(w.drop_last() =~= v.drop_last()),
            _ => {},
        },
        NumPySectionBodyV::Methods(v) => match r {
            NumPySectionBodyV::Methods(w) => assert(w.drop_last() =~= v.drop_last()),
            _ => {},
        },
        NumPySectionBodyV::SeeAlso(v) => match r {
            NumPySectionBodyV::SeeAlso(w) => assert(w.drop_last() =~= v.drop_last()),
            _ => {},
        },
        NumPySectionBodyV::References(v) => match r {
            NumPySectionBodyV::References(w) => assert(w.drop_last() =~= v.drop_last()),
            _ => {},
        },
        _ => {},
    }
}

/// `new` is `old` with one entry appended: same section kind, the earlier
/// entries unchanged.
pub open spec fn numpy_entry_appended(old: NumPySectionBodyV, new: NumPySectionBodyV) -> bool {
    match (old, new) {
        (NumPySectionBodyV::Parameters(v), NumPySectionBodyV::Parameters(w)) => w.len() == v.len() + 1 && w.subrange(0, v.len() as int) == v,
        (NumPySectionBodyV::OtherParameters(v), NumPySectionBodyV::OtherParameters(w)) => w.len() == v.len() + 1 && w.subrange(0, v.len() as int) == v,
        (NumPySectionBodyV::Receives(v), NumPySectionBodyV::Receives(w)) => w.len() == v.len() + 1 && w.subrange(0, v.len() as int) == v,
        (NumPySectionBodyV::Returns(v), NumPySectionBodyV::Returns(w)) => w.len() == v.len() + 1 && w.subrange(0, v.len() as int) == v,
        (NumPySectionBodyV::Yields(v), NumPySectionBodyV::Yields(w)) => w.len() == v.len() + 1 && w.subrange(0, v.len() as int) == v,
        (NumPySectionBodyV::Raises(v), NumPySectionBodyV::Raises(w)) => w.len() == v.len() + 1 && w.subrange(0, v.len() as int) == v,
        (NumPySectionBodyV::Warns(v), NumPySectionBodyV::Warns(w)) => w.len() == v.len() + 1 && w.subrange(0, v.len() as int) == v,
        (NumPySectionBodyV::Attributes(v), NumPySectionBodyV::Attributes(w)) => w.len() == v.len() + 1 && w.subrange(0, v.len() as int) == v,
        (NumPySectionBodyV::Methods(v), NumPySectionBodyV::Methods(w)) => w.len() == v.len() + 1 && w.subrange(0, v.len() as int) == v,
        (NumPySectionBodyV::SeeAlso(v), NumPySectionBodyV::SeeAlso(w)) => w.len() == v.len() + 1 && w.subrange(0, v.len() as int) == v,
        (NumPySectionBodyV::References(v), NumPySectionBodyV::References(w)) => w.len() == v.len() + 1 && w.subrange(0, v.len() as int) == v,
        _ => false,
    }
}

/// Law: in every NumPy entry section, a line `k` not indented deeper than
/// the entries (or the first line of the section) starts a new entry: one
/// entry is appended, the earlier ones are kept, the new entry spans the
/// line's trimmed text, and the first entry's indentation becomes the
/// section's entry indentation.
pub proof fn law_numpy_entry_line(b: Seq<u8>, body: NumPySectionBodyV, indent: Option<int>, k: int)
    requires
        b.len() <= u32::MAX,
        numpy_is_entry_body(body),
        indent matches Some(base) ==> indent_cols(b, k) <= base,
    ensures
        ({
            let r = numpy_body_line(b, body, indent, k);
            &&& numpy_entry_appended(body, r.0)
            &&& numpy_entry_span(r.0, numpy_entry_count(body)).lo() == tlo(b, k)
            &&& numpy_entry_span(r.0, numpy_entry_count(body)).hi() == thi(b, k)
            &&& r.1 == (if indent is Some {
                indent
            } else {
                Some(indent_cols(b, k))
            })
        }),
{
    lemma_line_bounds(b, k);
    let r = numpy_body_line(b, body, indent, k).0;
    match body {
        NumPySectionBodyV::Parameters(v) => match r {
            NumPySectionBodyV::Parameters(w) => assert(w.subrange(0, v.len() as int) =~= v),
            _ => {},
        },
        NumPySectionBodyV::OtherParameters(v) => match r {
            NumPySectionBodyV::OtherParameters(w) => assert(w.subrange(0, v.len() as int) =~= v),
            _ => {},
        },
        NumPySectionBodyV::Receives(v) => match r {
            NumPySectionBodyV::Receives(w) => assert(w.subrange(0, v.len() as int) =~= v),
            _ => {},
        },
        NumPySectionBodyV::Returns(v) => match r {
            NumPySectionBodyV::Returns(w) => assert(w.subrange(0, v.len() as int) =~= v),
            _ => {},
        },
        NumPySectionBodyV::Yields(v) => match r {
            NumPySectionBodyV::Yields(w) => assert(w.subrange(0, v.len() as int) =~= v),
            _ => {},
        },
        NumPySectionBodyV::Raises(v) => match r {
            NumPySectionBodyV::Raises(w) => assert(w.subrange(0, v.len() as int) =~= v),
            _ => {},
        },
        NumPySectionBodyV::Warns(v) => match r {
            NumPySectionBodyV::Warns(w) => assert(w.subrange(0, v.len() as int) =~= v),
            _ => {},
        },
        NumPySectionBodyV::Attributes(v) => match r {
            NumPySectionBodyV::Attributes(w) => assert(w.subrange(0, v.len() as int) =~= v),
            _ => {},
        },
        NumPySectionBodyV::Methods(v) => match r {
            NumPySectionBodyV::Methods(w) => assert(w.subrange(0, v.len() as int) =~= v),
            _ => {},
        },
        NumPySectionBodyV::SeeAlso(v) => match r {
            NumPySectionBodyV::SeeAlso(w) => assert(w.subrange(0, v.len() as int) =~= v),
            _ => {},
        },
        NumPySectionBodyV::References(v) => match r {
            NumPySectionBodyV::References(w) => assert(w.subrange(0, v.len() as int) =~= v),
            _ => {},
        },
        _ => {},
    }
}

} // verus!
