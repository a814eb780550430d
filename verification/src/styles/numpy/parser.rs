//! NumPy-style docstring parser.
//!
//! ```text
//! Brief summary.
//!
//! Extended description.
//!
//! Parameters
//! ----------
//! param1 : type
//!     Description of param1.
//! param2 : type, optional
//!     Description of param2.
//!
//! Returns
//! -------
//! type
//!     Description of return value.
//! ```
use vstd::prelude::*;
use vstd::string::StringSliceAdditionalSpecFns;
use crate::cursor::{Cursor, tlo, thi, mk_range, trimmed_range, indent_cols, is_blank, line_count, line_hi, first_nonblank_from, last_nonblank_before, lemma_line_bounds, rng};
use crate::lexical::{lower_seq, skip_ws, skip_ws_back, trim_lo, trim_hi, eq_bytes, starts_with, skip_ws_exec, skip_ws_back_exec, trim_exec, eq_bytes_exec, starts_with_exec};
use crate::styles::utils::{entry_colon, find_entry_colon, comma_parts, split_comma_parts, any_close_from, find_matching_close, split_names_from, split_names_exec, lemma_any_close_bounds};
use crate::styles::google::parser::{extend_opt, to_end, section_range, skip_commas_back, skip_commas_back_exec, opt_cols};
use crate::styles::numpy::ast::{NumPySectionHeader, NumPyDeprecation, NumPyParameter, NumPyParameterV, NumPyReturns, NumPyException, NumPyWarning, SeeAlsoItem, SeeAlsoItemV, NumPyReference, NumPyAttribute, NumPyMethod, NumPySectionBody, NumPySectionBodyV, NumPySection, NumPySectionV, NumPyDocstringItem, NumPyDocstringItemV, NumPyDocstring, NumPyDocstringV, numpy_kind, numpy_kind_of, numpy_empty_body, params_view, see_also_view, items_view};
use crate::text::{TextRange, TextSize};

verus! {

broadcast use vstd::seq::group_seq_axioms;

// ===========================================================================
// Section headers
// ===========================================================================

/// `[s, e)` holds only dashes.
pub open spec fn all_dashes(b: Seq<u8>, s: int, e: int) -> bool {
    forall|i: int| s <= i < e ==> b[i] == 0x2D
}

/// The section header starting on line `k`: a non-blank line followed by a
/// line of dashes.
pub open spec fn numpy_header(b: Seq<u8>, k: int) -> Option<NumPySectionHeader> {
    if is_blank(b, k) || k + 1 >= line_count(b) {
        None
    } else if tlo(b, k + 1) < thi(b, k + 1) && all_dashes(b, tlo(b, k + 1), thi(b, k + 1)) {
        Some(
            NumPySectionHeader {
                range: mk_range(tlo(b, k), thi(b, k + 1)),
                kind: numpy_kind(lower_seq(b.subrange(tlo(b, k), thi(b, k)))),
                name: trimmed_range(b, k),
                underline: trimmed_range(b, k + 1),
            },
        )
    } else {
        None
    }
}

// ===========================================================================
// Parameter headers
// ===========================================================================

/// What the comma-separated segments of a type annotation hold.
#[derive(Clone, Copy)]
pub struct TypeScan {
    pub optional: Option<TextRange>,
    pub default_keyword: Option<TextRange>,
    pub default_separator: Option<TextRange>,
    pub default_value: Option<TextRange>,
    /// End of the last plain type segment (the annotation's start if none).
    pub type_end: int,
}

/// Position of the last byte `c` in `[s, j)` (`s` if there is none).
pub open spec fn last_byte_before(b: Seq<u8>, s: int, j: int, c: u8) -> int
    decreases j - s,
{
    if j <= s {
        s
    } else if b[j - 1] == c {
        j - 1
    } else {
        last_byte_before(b, s, j - 1, c)
    }
}

/// The segment `[a, z)` classified into `acc`: `optional`, a `default`
/// marker (with `=`/`:` separator and value), or a plain type segment.
pub open spec fn classify_segment(b: Seq<u8>, a: int, z: int, acc: TypeScan) -> TypeScan {
    let sa = trim_lo(b, a, z);
    let sz = trim_hi(b, a, z);
    if sa >= sz {
        acc
    } else if eq_bytes(b, sa, sz, "optional".spec_bytes()) {
        TypeScan { optional: Some(mk_range(sa, sa + 8)), ..acc }
    } else if starts_with(b, sa, sz, "default".spec_bytes()) {
        let k2 = skip_ws(b, sa + 7, sz);
        let kw = Some(mk_range(sa, sa + 7));
        if k2 < sz && b[k2] == 0x3D {
            let v = skip_ws(b, k2 + 1, sz);
            TypeScan {
                default_keyword: kw,
                default_separator: Some(mk_range(k2, k2 + 1)),
                default_value: if v < sz {
                    Some(mk_range(v, sz))
                } else {
                    acc.default_value
                },
                ..acc
            }
        } else if k2 < sz && b[k2] == 0x3A {
            let lc = last_byte_before(b, sa, sz, 0x3A);
            let v = skip_ws(b, k2 + 1, sz);
            TypeScan {
                default_keyword: kw,
                default_separator: Some(mk_range(lc, lc + 1)),
                default_value: if v < sz {
                    Some(mk_range(v, sz))
                } else {
                    acc.default_value
                },
                ..acc
            }
        } else {
            TypeScan {
                default_keyword: kw,
                default_value: if k2 < sz {
                    Some(mk_range(k2, sz))
                } else {
                    acc.default_value
                },
                ..acc
            }
        }
    } else {
        TypeScan { type_end: skip_ws_back(b, a, z), ..acc }
    }
}

/// The segments `parts[i..]` classified in order into `acc`.
pub open spec fn type_scan(b: Seq<u8>, parts: Seq<(int, int)>, i: int, acc: TypeScan) -> TypeScan
    decreases parts.len() - i,
{
    if i < 0 || i >= parts.len() {
        acc
    } else {
        type_scan(b, parts, i + 1, classify_segment(b, parts[i].0, parts[i].1, acc))
    }
}

/// Components of a parameter header `x1, x2 : type, optional, default=v`.
pub struct ParamParts {
    pub names: Seq<TextRange>,
    pub colon: Option<TextRange>,
    pub ty: Option<TextRange>,
    pub optional: Option<TextRange>,
    pub default_keyword: Option<TextRange>,
    pub default_separator: Option<TextRange>,
    pub default_value: Option<TextRange>,
}

/// The parameter header in the trimmed text `[ts, te)`.
pub open spec fn param_parts(b: Seq<u8>, ts: int, te: int) -> ParamParts {
    match entry_colon(b, ts, te) {
        None => ParamParts {
            names: split_names_from(b, ts, te, ts),
            colon: None,
            ty: None,
            optional: None,
            default_keyword: None,
            default_separator: None,
            default_value: None,
        },
        Some(cl) => {
            let names = split_names_from(b, ts, skip_ws_back(b, ts, cl), ts);
            let colon = Some(mk_range(cl, cl + 1));
            let al = trim_lo(b, cl + 1, te);
            let ah = trim_hi(b, cl + 1, te);
            if al >= ah {
                ParamParts {
                    names,
                    colon,
                    ty: None,
                    optional: None,
                    default_keyword: None,
                    default_separator: None,
                    default_value: None,
                }
            } else {
                let scan = type_scan(
                    b,
                    comma_parts(b, al, ah),
                    0,
                    TypeScan {
                        optional: None,
                        default_keyword: None,
                        default_separator: None,
                        default_value: None,
                        type_end: al,
                    },
                );
                ParamParts {
                    names,
                    colon,
                    ty: if scan.type_end == al {
                        None
                    } else {
                        Some(mk_range(al, skip_ws_back(b, al, skip_commas_back(b, al, scan.type_end))))
                    },
                    optional: scan.optional,
                    default_keyword: scan.default_keyword,
                    default_separator: scan.default_separator,
                    default_value: scan.default_value,
                }
            }
        },
    }
}


// ===========================================================================
// Entries
// ===========================================================================

/// The trimmed non-empty part of `[a, z)`, if any.
pub open spec fn trimmed_opt(b: Seq<u8>, a: int, z: int) -> Option<TextRange> {
    if trim_lo(b, a, z) < trim_hi(b, a, z) {
        Some(mk_range(trim_lo(b, a, z), trim_hi(b, a, z)))
    } else {
        None
    }
}

/// The parameter entry on line `k`.
pub open spec fn numpy_param(b: Seq<u8>, k: int) -> NumPyParameterV {
    let p = param_parts(b, tlo(b, k), thi(b, k));
    NumPyParameterV {
        range: trimmed_range(b, k),
        names: p.names,
        colon: p.colon,
        ty: p.ty,
        description: None,
        optional: p.optional,
        default_keyword: p.default_keyword,
        default_separator: p.default_separator,
        default_value: p.default_value,
    }
}

/// The return entry on line `k`: `name : type`, or just a type.
pub open spec fn numpy_return(b: Seq<u8>, k: int) -> NumPyReturns {
    let ts = tlo(b, k);
    let te = thi(b, k);
    match entry_colon(b, ts, te) {
        Some(cl) => NumPyReturns {
            range: trimmed_range(b, k),
            name: Some(mk_range(ts, skip_ws_back(b, ts, cl))),
            colon: Some(mk_range(cl, cl + 1)),
            return_type: trimmed_opt(b, cl + 1, te),
            description: None,
        },
        None => NumPyReturns {
            range: trimmed_range(b, k),
            name: None,
            colon: None,
            return_type: Some(trimmed_range(b, k)),
            description: None,
        },
    }
}

/// `type : description` on line `k` (exceptions and warnings): the type,
/// the colon and the first description fragment.
pub open spec fn typed_entry(b: Seq<u8>, k: int) -> (TextRange, Option<TextRange>, Option<TextRange>) {
    let ts = tlo(b, k);
    let te = thi(b, k);
    match entry_colon(b, ts, te) {
        Some(cl) => (
            mk_range(ts, skip_ws_back(b, ts, cl)),
            Some(mk_range(cl, cl + 1)),
            trimmed_opt(b, cl + 1, te),
        ),
        None => (trimmed_range(b, k), None, None),
    }
}

/// The method entry on line `k`.
pub open spec fn numpy_method(b: Seq<u8>, k: int) -> NumPyMethod {
    let ts = tlo(b, k);
    let te = thi(b, k);
    match entry_colon(b, ts, te) {
        Some(cl) => NumPyMethod {
            range: trimmed_range(b, k),
            name: mk_range(ts, skip_ws_back(b, ts, cl)),
            colon: Some(mk_range(cl, cl + 1)),
            description: None,
        },
        None => NumPyMethod {
            range: trimmed_range(b, k),
            name: trimmed_range(b, k),
            colon: None,
            description: None,
        },
    }
}

/// The attribute entry on line `k`.
pub open spec fn numpy_attribute(b: Seq<u8>, k: int) -> NumPyAttribute {
    let p = param_parts(b, tlo(b, k), thi(b, k));
    NumPyAttribute {
        range: trimmed_range(b, k),
        name: if p.names.len() > 0 {
            p.names[0]
        } else {
            TextRange::spec_empty()
        },
        colon: p.colon,
        ty: p.ty,
        description: None,
    }
}

/// The See Also entry on line `k`.
pub open spec fn numpy_see_also(b: Seq<u8>, k: int) -> SeeAlsoItemV {
    let ts = tlo(b, k);
    let te = thi(b, k);
    match entry_colon(b, ts, te) {
        Some(cl) => SeeAlsoItemV {
            range: trimmed_range(b, k),
            names: split_names_from(b, ts, skip_ws_back(b, ts, cl), ts),
            colon: Some(mk_range(cl, cl + 1)),
            description: trimmed_opt(b, cl + 1, te),
        },
        None => SeeAlsoItemV {
            range: trimmed_range(b, k),
            names: split_names_from(b, ts, te, ts),
            colon: None,
            description: None,
        },
    }
}

/// Line `k` starts like an RST citation: `..`, optional whitespace, `[`.
pub open spec fn is_citation(b: Seq<u8>, k: int) -> bool {
    let ts = tlo(b, k);
    let te = thi(b, k);
    &&& te - ts >= 2
    &&& b[ts] == 0x2E
    &&& b[ts + 1] == 0x2E
    &&& skip_ws(b, ts + 2, te) < te
    &&& b[skip_ws(b, ts + 2, te)] == 0x5B
}

/// The plain-text reference on line `k`.
pub open spec fn plain_reference(b: Seq<u8>, k: int) -> NumPyReference {
    NumPyReference {
        range: trimmed_range(b, k),
        directive_marker: None,
        open_bracket: None,
        number: None,
        close_bracket: None,
        content: Some(trimmed_range(b, k)),
    }
}

/// The reference entry on line `k`, and whether reading it fails because
/// the citation's closing bracket lies past the end of the line.
pub open spec fn numpy_reference(b: Seq<u8>, k: int) -> (NumPyReference, bool) {
    let ts = tlo(b, k);
    if is_citation(b, k) {
        let q = skip_ws(b, ts + 2, thi(b, k));
        match any_close_from(b, q, 0) {
            Some(cl) => if cl + 1 > line_hi(b, k) {
                (plain_reference(b, k), true)
            } else {
                (
                    NumPyReference {
                        range: trimmed_range(b, k),
                        directive_marker: Some(mk_range(ts, ts + 2)),
                        open_bracket: Some(mk_range(q, q + 1)),
                        number: trimmed_opt(b, q + 1, cl),
                        close_bracket: Some(mk_range(cl, cl + 1)),
                        content: trimmed_opt(b, cl + 1, line_hi(b, k)),
                    },
                    false,
                )
            },
            None => (plain_reference(b, k), false),
        }
    } else {
        (plain_reference(b, k), false)
    }
}

/// The entry parsed from line `k` appended to `body`, and whether reading it
/// fails.
pub open spec fn numpy_push_entry(b: Seq<u8>, body: NumPySectionBodyV, k: int) -> (
    NumPySectionBodyV,
    bool,
) {
    match body {
        NumPySectionBodyV::Parameters(v) => (NumPySectionBodyV::Parameters(v.push(numpy_param(b, k))), false),
        NumPySectionBodyV::OtherParameters(v) => (
            NumPySectionBodyV::OtherParameters(v.push(numpy_param(b, k))),
            false,
        ),
        NumPySectionBodyV::Receives(v) => (NumPySectionBodyV::Receives(v.push(numpy_param(b, k))), false),
        NumPySectionBodyV::Returns(v) => (NumPySectionBodyV::Returns(v.push(numpy_return(b, k))), false),
        NumPySectionBodyV::Yields(v) => (NumPySectionBodyV::Yields(v.push(numpy_return(b, k))), false),
        NumPySectionBodyV::Raises(v) => {
            let t = typed_entry(b, k);
            (
                NumPySectionBodyV::Raises(
                    v.push(
                        NumPyException { range: trimmed_range(b, k), ty: t.0, colon: t.1, description: t.2 },
                    ),
                ),
                false,
            )
        },
        NumPySectionBodyV::Warns(v) => {
            let t = typed_entry(b, k);
            (
                NumPySectionBodyV::Warns(
                    v.push(
                        NumPyWarning { range: trimmed_range(b, k), ty: t.0, colon: t.1, description: t.2 },
                    ),
                ),
                false,
            )
        },
        NumPySectionBodyV::Attributes(v) => (
            NumPySectionBodyV::Attributes(v.push(numpy_attribute(b, k))),
            false,
        ),
        NumPySectionBodyV::Methods(v) => (NumPySectionBodyV::Methods(v.push(numpy_method(b, k))), false),
        NumPySectionBodyV::SeeAlso(v) => (NumPySectionBodyV::SeeAlso(v.push(numpy_see_also(b, k))), false),
        NumPySectionBodyV::References(v) => {
            let r = numpy_reference(b, k);
            (NumPySectionBodyV::References(v.push(r.0)), r.1)
        },
        _ => (body, false),
    }
}

/// The last entry's description (and range) extended by continuation `r`.
pub open spec fn numpy_extend_last(body: NumPySectionBodyV, r: TextRange) -> NumPySectionBodyV {
    match body {
        NumPySectionBodyV::Parameters(v) => if v.len() > 0 {
            NumPySectionBodyV::Parameters(
                v.update(
                    v.len() - 1,
                    NumPyParameterV {
                        description: extend_opt(v.last().description, r),
                        range: to_end(v.last().range, r),
                        ..v.last()
                    },
                ),
            )
        } else {
            body
        },
        NumPySectionBodyV::OtherParameters(v) => if v.len() > 0 {
            NumPySectionBodyV::OtherParameters(
                v.update(
                    v.len() - 1,
                    NumPyParameterV {
                        description: extend_opt(v.last().description, r),
                        range: to_end(v.last().range, r),
                        ..v.last()
                    },
                ),
            )
        } else {
            body
        },
        NumPySectionBodyV::Receives(v) => if v.len() > 0 {
            NumPySectionBodyV::Receives(
                v.update(
                    v.len() - 1,
                    NumPyParameterV {
                        description: extend_opt(v.last().description, r),
                        range: to_end(v.last().range, r),
                        ..v.last()
                    },
                ),
            )
        } else {
            body
        },
        NumPySectionBodyV::Returns(v) => if v.len() > 0 {
            NumPySectionBodyV::Returns(
                v.update(
                    v.len() - 1,
                    NumPyReturns {
                        description: extend_opt(v.last().description, r),
                        range: to_end(v.last().range, r),
                        ..v.last()
                    },
                ),
            )
        } else {
            body
        },
        NumPySectionBodyV::Yields(v) => if v.len() > 0 {
            NumPySectionBodyV::Yields(
                v.update(
                    v.len() - 1,
                    NumPyReturns {
                        description: extend_opt(v.last().description, r),
                        range: to_end(v.last().range, r),
                        ..v.last()
                    },
                ),
            )
        } else {
            body
        },
        NumPySectionBodyV::Raises(v) => if v.len() > 0 {
            NumPySectionBodyV::Raises(
                v.update(
                    v.len() - 1,
                    NumPyException {
                        description: extend_opt(v.last().description, r),
                        range: to_end(v.last().range, r),
                        ..v.last()
                    },
                ),
            )
        } else {
            body
        },
        NumPySectionBodyV::Warns(v) => if v.len() > 0 {
            NumPySectionBodyV::Warns(
                v.update(
                    v.len() - 1,
                    NumPyWarning {
                        description: extend_opt(v.last().description, r),
                        range: to_end(v.last().range, r),
                        ..v.last()
                    },
                ),
            )
        } else {
            body
        },
        NumPySectionBodyV::Attributes(v) => if v.len() > 0 {
            NumPySectionBodyV::Attributes(
                v.update(
                    v.len() - 1,
                    NumPyAttribute {
                        description: extend_opt(v.last().description, r),
                        range: to_end(v.last().range, r),
                        ..v.last()
                    },
                ),
            )
        } else {
            body
        },
        NumPySectionBodyV::Methods(v) => if v.len() > 0 {
            NumPySectionBodyV::Methods(
                v.update(
                    v.len() - 1,
                    NumPyMethod {
                        description: extend_opt(v.last().description, r),
                        range: to_end(v.last().range, r),
                        ..v.last()
                    },
                ),
            )
        } else {
            body
        },
        NumPySectionBodyV::SeeAlso(v) => if v.len() > 0 {
            NumPySectionBodyV::SeeAlso(
                v.update(
                    v.len() - 1,
                    SeeAlsoItemV {
                        description: extend_opt(v.last().description, r),
                        range: to_end(v.last().range, r),
                        ..v.last()
                    },
                ),
            )
        } else {
            body
        },
        NumPySectionBodyV::References(v) => if v.len() > 0 {
            NumPySectionBodyV::References(
                v.update(
                    v.len() - 1,
                    NumPyReference {
                        content: extend_opt(v.last().content, r),
                        range: to_end(v.last().range, r),
                        ..v.last()
                    },
                ),
            )
        } else {
            body
        },
        _ => body,
    }
}

/// Free text extended by the range `r`.
pub open spec fn numpy_extend_text(body: NumPySectionBodyV, r: TextRange) -> NumPySectionBodyV {
    match body {
        NumPySectionBodyV::Warnings(t) => NumPySectionBodyV::Warnings(extend_opt(t, r)),
        NumPySectionBodyV::Notes(t) => NumPySectionBodyV::Notes(extend_opt(t, r)),
        NumPySectionBodyV::Examples(t) => NumPySectionBodyV::Examples(extend_opt(t, r)),
        NumPySectionBodyV::Unknown(t) => NumPySectionBodyV::Unknown(extend_opt(t, r)),
        _ => body,
    }
}

/// Whether a body holds entries (everything but free text).
pub open spec fn numpy_is_entry_body(body: NumPySectionBodyV) -> bool {
    match body {
        NumPySectionBodyV::Warnings(_) | NumPySectionBodyV::Notes(_)
        | NumPySectionBodyV::Examples(_) | NumPySectionBodyV::Unknown(_) => false,
        _ => true,
    }
}

/// One non-blank, non-header content line `k` of the current section: the
/// new body, entry indentation, and whether reading the line fails.
pub open spec fn numpy_body_line(b: Seq<u8>, body: NumPySectionBodyV, indent: Option<int>, k: int) -> (
    NumPySectionBodyV,
    Option<int>,
    bool,
) {
    if numpy_is_entry_body(body) {
        let cols = indent_cols(b, k);
        match indent {
            Some(base) => if cols > base {
                (numpy_extend_last(body, trimmed_range(b, k)), indent, false)
            } else {
                let p = numpy_push_entry(b, body, k);
                (p.0, indent, p.1)
            },
            None => {
                let p = numpy_push_entry(b, body, k);
                (p.0, Some(cols), p.1)
            },
        }
    } else {
        (numpy_extend_text(body, trimmed_range(b, k)), indent, false)
    }
}

// ===========================================================================
// Document structure
// ===========================================================================

/// Section-phase parser state between lines.
pub struct NumPyStateV {
    pub items: Seq<NumPyDocstringItemV>,
    pub current: Option<(NumPySectionHeader, NumPySectionBodyV)>,
    pub entry_indent: Option<int>,
    /// Some line could not be read.
    pub failed: bool,
}

/// `items` with the pending section (if any) appended, flushed at line `k`.
pub open spec fn numpy_flush(
    b: Seq<u8>,
    items: Seq<NumPyDocstringItemV>,
    current: Option<(NumPySectionHeader, NumPySectionBodyV)>,
    k: int,
) -> Seq<NumPyDocstringItemV> {
    match current {
        Some((h, body)) => items.push(
            NumPyDocstringItemV::Section(
                NumPySectionV { range: section_range(b, h.range.lo(), k), header: h, body },
            ),
        ),
        None => items,
    }
}

/// Processing of the non-blank, non-header line `k` in the section phase.
pub open spec fn numpy_line(b: Seq<u8>, st: NumPyStateV, k: int) -> NumPyStateV {
    match st.current {
        Some((h, body)) => {
            let r = numpy_body_line(b, body, st.entry_indent, k);
            NumPyStateV {
                current: Some((h, r.0)),
                entry_indent: r.1,
                failed: st.failed || r.2,
                ..st
            }
        },
        None => NumPyStateV {
            items: st.items.push(NumPyDocstringItemV::StrayLine(trimmed_range(b, k))),
            ..st
        },
    }
}

/// The section phase from line `k` on, in state `st`.
pub open spec fn numpy_sections(b: Seq<u8>, k: int, st: NumPyStateV) -> NumPyStateV
    decreases line_count(b) - k,
{
    if k >= line_count(b) {
        st
    } else if is_blank(b, k) {
        numpy_sections(b, k + 1, st)
    } else {
        match numpy_header(b, k) {
            Some(h) => {
                let st2 = NumPyStateV {
                    items: numpy_flush(b, st.items, st.current, k),
                    current: Some((h, numpy_empty_body(h.kind))),
                    entry_indent: None,
                    failed: st.failed,
                };
                if k + 2 <= line_count(b) {
                    numpy_sections(b, k + 2, st2)
                } else {
                    st2
                }
            },
            None => numpy_sections(b, k + 1, numpy_line(b, st, k)),
        }
    }
}

/// First line at or after `k` that ends the summary paragraph (a header, a
/// blank line, or the end).
pub open spec fn summary_end(b: Seq<u8>, k: int) -> int
    decreases line_count(b) - k,
{
    if k < line_count(b) && numpy_header(b, k) is None && !is_blank(b, k) {
        summary_end(b, k + 1)
    } else {
        k
    }
}

/// First line at or after `k` that starts a section header (or the end).
pub open spec fn next_header(b: Seq<u8>, k: int) -> int
    decreases line_count(b) - k,
{
    if k < line_count(b) && numpy_header(b, k) is None {
        next_header(b, k + 1)
    } else {
        k
    }
}

/// First line at or after `k` that is non-blank and indented at most
/// `base` columns (or the end).
pub open spec fn dedent_line(b: Seq<u8>, k: int, base: int) -> int
    decreases line_count(b) - k,
{
    if k < line_count(b) && (is_blank(b, k) || indent_cols(b, k) > base) {
        dedent_line(b, k + 1, base)
    } else {
        k
    }
}

/// The deprecation directive on line `p` and the line after its body.
pub open spec fn numpy_deprecation(b: Seq<u8>, p: int) -> (NumPyDeprecation, int) {
    let ts = tlo(b, p);
    let te = thi(b, p);
    let q = dedent_line(b, p + 1, indent_cols(b, p));
    let f = first_nonblank_from(b, p + 1);
    let desc = if f < q {
        Some(mk_range(tlo(b, f), thi(b, last_nonblank_before(b, p + 1, q))))
    } else {
        None
    };
    (
        NumPyDeprecation {
            range: mk_range(
                ts,
                match desc {
                    Some(d) => d.hi(),
                    None => te,
                },
            ),
            directive_marker: Some(mk_range(ts, ts + 2)),
            keyword: Some(mk_range(ts + 3, ts + 13)),
            double_colon: Some(mk_range(ts + 13, ts + 15)),
            version: mk_range(trim_lo(b, ts + 15, te), trim_hi(b, ts + 15, te)),
            description: match desc {
                Some(d) => d,
                None => TextRange::spec_empty(),
            },
        },
        q,
    )
}

/// Line `p` is a deprecation directive.
pub open spec fn is_deprecation(b: Seq<u8>, p: int) -> bool {
    &&& p < line_count(b)
    &&& numpy_header(b, p) is None
    &&& starts_with(b, tlo(b, p), thi(b, p), ".. deprecated::".spec_bytes())
}

/// The whole parse of `b`: summary, deprecation, extended summary, the
/// section-phase state at the end, and the line the section phase starts at.
pub struct NumPyParseV {
    pub empty: bool,
    pub summary: Option<TextRange>,
    pub deprecation: Option<NumPyDeprecation>,
    pub extended_summary: Option<TextRange>,
    pub sections_from: int,
    pub end: NumPyStateV,
}

/// The state at the start of the section phase.
pub open spec fn init_numpy_state() -> NumPyStateV {
    NumPyStateV { items: seq![], current: None, entry_indent: None, failed: false }
}

/// Line after the summary paragraph that may start at the first non-blank
/// line `s0` (`s0` itself when it opens a section).
pub open spec fn after_summary(b: Seq<u8>, s0: int) -> int {
    if numpy_header(b, s0) is None {
        summary_end(b, s0)
    } else {
        s0
    }
}

/// The summary paragraph starting at the first non-blank line `s0`.
pub open spec fn summary_at(b: Seq<u8>, s0: int) -> Option<TextRange> {
    if numpy_header(b, s0) is None {
        Some(mk_range(tlo(b, s0), thi(b, summary_end(b, s0) - 1)))
    } else {
        None
    }
}

/// The deprecation directive at line `p`, if it is one.
pub open spec fn deprecation_at(b: Seq<u8>, p: int) -> Option<NumPyDeprecation> {
    if is_deprecation(b, p) {
        Some(numpy_deprecation(b, p).0)
    } else {
        None
    }
}

/// First non-blank line after the deprecation directive at `p` (`p` if
/// there is none).
pub open spec fn after_deprecation(b: Seq<u8>, p: int) -> int {
    if is_deprecation(b, p) {
        first_nonblank_from(b, numpy_deprecation(b, p).1)
    } else {
        p
    }
}

/// Line `x` starts an extended summary.
pub open spec fn has_extended(b: Seq<u8>, x: int) -> bool {
    x < line_count(b) && numpy_header(b, x) is None
}

/// The extended summary starting at line `x`.
pub open spec fn extended_at(b: Seq<u8>, x: int) -> Option<TextRange> {
    let l = last_nonblank_before(b, x, next_header(b, x));
    if has_extended(b, x) && l >= x {
        Some(mk_range(tlo(b, x), thi(b, l)))
    } else {
        None
    }
}

/// Line where the section phase starts, the extended summary (if any)
/// starting at `x`.
pub open spec fn after_extended(b: Seq<u8>, x: int) -> int {
    if has_extended(b, x) {
        next_header(b, x)
    } else {
        x
    }
}

/// The parse of the bytes `b`.
pub open spec fn numpy_parse(b: Seq<u8>) -> NumPyParseV {
    let n = line_count(b);
    let s0 = first_nonblank_from(b, 0);
    if s0 >= n {
        NumPyParseV {
            empty: true,
            summary: None,
            deprecation: None,
            extended_summary: None,
            sections_from: n,
            end: init_numpy_state(),
        }
    } else {
        let p = first_nonblank_from(b, after_summary(b, s0));
        let x = after_deprecation(b, p);
        let e2 = after_extended(b, x);
        NumPyParseV {
            empty: false,
            summary: summary_at(b, s0),
            deprecation: deprecation_at(b, p),
            extended_summary: extended_at(b, x),
            sections_from: e2,
            end: numpy_sections(b, e2, init_numpy_state()),
        }
    }
}

/// The items of the parse of `b`.
pub open spec fn numpy_items(b: Seq<u8>) -> Seq<NumPyDocstringItemV> {
    let r = numpy_parse(b);
    numpy_flush(b, r.end.items, r.end.current, line_count(b))
}

/// Reading `b` as a NumPy docstring fails: a reference citation's closing
/// bracket lies past the end of its line.
pub open spec fn numpy_fails(b: Seq<u8>) -> bool {
    numpy_parse(b).end.failed
}

// ===========================================================================
// Executable parsing
// ===========================================================================

/// Whether `[s, e)` holds only dashes.
pub(crate) fn all_dashes_exec(b: &[u8], s: usize, e: usize) -> (r: bool)
    requires
        s <= e <= b@.len(),
    ensures
        r == all_dashes(b@, s as int, e as int),
{
    let mut i = s;
    while i < e
        invariant
            s <= i <= e <= b@.len(),
            forall|j: int| s <= j < i ==> b@[j] == 0x2D,
        decreases e - i,
    {
        if b[i] != 0x2D {
            return false;
        }
        i = i + 1;
    }
    true
}

/// Whether `[s, e)` is a section underline: a non-empty run of dashes.
pub fn is_underline(b: &[u8], s: usize, e: usize) -> (r: bool)
    requires
        s <= e <= b@.len(),
    ensures
        r == (s < e && all_dashes(b@, s as int, e as int)),
{
    s < e && all_dashes_exec(b, s, e)
}

/// The section header starting on line `k`, if there is one.
pub fn numpy_header_at(c: &Cursor, k: usize) -> (r: Option<NumPySectionHeader>)
    requires
        c.wf(),
    ensures
        r == numpy_header(c.b(), k as int),
{
    let (ts, te) = c.trimmed_bounds(k);
    if ts == te || k >= c.total || k + 1 >= c.total {
        return None;
    }
    let (us, ue) = c.trimmed_bounds(k + 1);
    if is_underline(c.bytes, us, ue) {
        Some(
            NumPySectionHeader {
                range: TextRange { start: TextSize(ts as u32), end: TextSize(ue as u32) },
                kind: numpy_kind_of(c.bytes, ts, te, true),
                name: rng(ts, te),
                underline: rng(us, ue),
            },
        )
    } else {
        None
    }
}

/// Position of the last byte `x` in `[s, j)` (`s` if there is none).
fn last_byte_before_exec(b: &[u8], s: usize, j: usize, x: u8) -> (r: usize)
    requires
        s <= j <= b@.len(),
    ensures
        r == last_byte_before(b@, s as int, j as int, x),
        s <= r <= j,
        forall|i: int| s <= i < j && b@[i] == x ==> i <= r < j,
{
    let mut k = j;
    while k > s
        invariant
            s <= k <= j <= b@.len(),
            forall|i: int| k <= i < j ==> b@[i] != x,
            last_byte_before(b@, s as int, k as int, x) == last_byte_before(b@, s as int, j as int, x),
        decreases k,
    {
        if b[k - 1] == x {
            return k - 1;
        }
        k = k - 1;
    }
    s
}

/// Executable [`TypeScan`].
#[derive(Clone, Copy)]
struct TypeScanExec {
    optional: Option<TextRange>,
    default_keyword: Option<TextRange>,
    default_separator: Option<TextRange>,
    default_value: Option<TextRange>,
    type_end: usize,
}

impl TypeScanExec {
    spec fn view(self) -> TypeScan {
        TypeScan {
            optional: self.optional,
            default_keyword: self.default_keyword,
            default_separator: self.default_separator,
            default_value: self.default_value,
            type_end: self.type_end as int,
        }
    }
}

/// Classify the segment `[a, z)` into `acc`.
fn classify_segment_exec(b: &[u8], a: usize, z: usize, acc: TypeScanExec) -> (r: TypeScanExec)
    requires
        a <= z <= b@.len() <= u32::MAX,
    ensures
        r.view() == classify_segment(b@, a as int, z as int, acc.view()),
        r.type_end == acc.type_end || a <= r.type_end <= z,
{
    let opt_lit = "optional".as_bytes();
    let def_lit = "default".as_bytes();
    proof {
        reveal_strlit("optional");
        reveal_strlit("default");
        vstd::string::is_ascii_spec_bytes("optional");
        vstd::string::is_ascii_spec_bytes("default");
        assert(vstd::string::is_ascii("optional"));
        assert(vstd::string::is_ascii("default"));
    }
    let (sa, sz) = trim_exec(b, a, z);
    if sa >= sz {
        return acc;
    }
    if eq_bytes_exec(b, sa, sz, opt_lit) {
        return TypeScanExec { optional: Some(rng(sa, sa + 8)), ..acc };
    }
    if starts_with_exec(b, sa, sz, def_lit) {
        let k2 = skip_ws_exec(b, sa + 7, sz);
        let kw = Some(rng(sa, sa + 7));
        if k2 < sz && b[k2] == 0x3D {
            let v = skip_ws_exec(b, k2 + 1, sz);
            TypeScanExec {
                default_keyword: kw,
                default_separator: Some(rng(k2, k2 + 1)),
                default_value: if v < sz {
                    Some(rng(v, sz))
                } else {
                    acc.default_value
                },
                ..acc
            }
        } else if k2 < sz && b[k2] == 0x3A {
            let lc = last_byte_before_exec(b, sa, sz, 0x3A);
            let v = skip_ws_exec(b, k2 + 1, sz);
            TypeScanExec {
                default_keyword: kw,
                default_separator: Some(rng(lc, lc + 1)),
                default_value: if v < sz {
                    Some(rng(v, sz))
                } else {
                    acc.default_value
                },
                ..acc
            }
        } else {
            TypeScanExec {
                default_keyword: kw,
                default_value: if k2 < sz {
                    Some(rng(k2, sz))
                } else {
                    acc.default_value
                },
                ..acc
            }
        }
    } else {
        TypeScanExec { type_end: skip_ws_back_exec(b, a, z), ..acc }
    }
}

/// Components of a parameter header `x1, x2 : type, optional, default=v`.
pub struct ParamHeaderParts {
    pub names: Vec<TextRange>,
    pub colon: Option<TextRange>,
    pub param_type: Option<TextRange>,
    pub optional: Option<TextRange>,
    pub default_keyword: Option<TextRange>,
    pub default_separator: Option<TextRange>,
    pub default_value: Option<TextRange>,
}

impl ParamHeaderParts {
    /// The header parts as mathematical values.
    pub open spec fn view(&self) -> ParamParts {
        ParamParts {
            names: self.names@,
            colon: self.colon,
            ty: self.param_type,
            optional: self.optional,
            default_keyword: self.default_keyword,
            default_separator: self.default_separator,
            default_value: self.default_value,
        }
    }
}

/// The parameter header in the trimmed text `[ts, te)`.
pub fn parse_name_and_type(b: &[u8], ts: usize, te: usize) -> (r: ParamHeaderParts)
    requires
        ts <= te <= b@.len() <= u32::MAX,
    ensures
        r.view() == param_parts(b@, ts as int, te as int),
{
    match find_entry_colon(b, ts, te) {
        None => ParamHeaderParts {
            names: split_names_exec(b, ts, te),
            colon: None,
            param_type: None,
            optional: None,
            default_keyword: None,
            default_separator: None,
            default_value: None,
        },
        Some(cl) => {
            let names = split_names_exec(b, ts, skip_ws_back_exec(b, ts, cl));
            let colon = Some(rng(cl, cl + 1));
            let (al, ah) = trim_exec(b, cl + 1, te);
            if al >= ah {
                return ParamHeaderParts {
                    names,
                    colon,
                    param_type: None,
                    optional: None,
                    default_keyword: None,
                    default_separator: None,
                    default_value: None,
                };
            }
            let parts = split_comma_parts(b, al, ah);
            let ghost cp = comma_parts(b@, al as int, ah as int);
            let mut acc = TypeScanExec {
                optional: None,
                default_keyword: None,
                default_separator: None,
                default_value: None,
                type_end: al,
            };
            let ghost acc0 = acc.view();
            let mut i: usize = 0;
            while i < parts.len()
                invariant
                    i <= parts@.len() == cp.len(),
                    cp == comma_parts(b@, al as int, ah as int),
                    al < ah <= b@.len() <= u32::MAX,
                    forall|j: int|
                        0 <= j < parts@.len() ==> (parts@[j].0 as int, parts@[j].1 as int)
                            == #[trigger] cp[j],
                    forall|j: int| 0 <= j < parts@.len() ==> al <= #[trigger] parts@[j].0 <= parts@[j].1 <= ah,
                    al <= acc.type_end <= ah,
                    type_scan(b@, cp, i as int, acc.view()) == type_scan(b@, cp, 0, acc0),
                decreases parts@.len() - i,
            {
                let (a, z) = parts[i];
                assert(cp[i as int] == (a as int, z as int));
                acc = classify_segment_exec(b, a, z, acc);
                i = i + 1;
            }
            let ty = if acc.type_end == al {
                None
            } else {
                let j = skip_commas_back_exec(b, al, acc.type_end);
                Some(rng(al, skip_ws_back_exec(b, al, j)))
            };
            ParamHeaderParts {
                names,
                colon,
                param_type: ty,
                optional: acc.optional,
                default_keyword: acc.default_keyword,
                default_separator: acc.default_separator,
                default_value: acc.default_value,
            }
        },
    }
}

/// The trimmed non-empty part of `[a, z)`, if any.
fn trimmed_opt_exec(b: &[u8], a: usize, z: usize) -> (r: Option<TextRange>)
    requires
        a <= z <= b@.len() <= u32::MAX,
    ensures
        r == trimmed_opt(b@, a as int, z as int),
{
    let (x, y) = trim_exec(b, a, z);
    if x < y {
        Some(rng(x, y))
    } else {
        None
    }
}

/// The parameter entry on the cursor's current line.
fn param_entry_exec(c: &Cursor) -> (r: NumPyParameter)
    requires
        c.wf(),
    ensures
        r@ == numpy_param(c.b(), c.line as int),
{
    let (ts, te) = c.trimmed_bounds(c.line);
    let p = parse_name_and_type(c.bytes, ts, te);
    NumPyParameter {
        range: rng(ts, te),
        names: p.names,
        colon: p.colon,
        ty: p.param_type,
        description: None,
        optional: p.optional,
        default_keyword: p.default_keyword,
        default_separator: p.default_separator,
        default_value: p.default_value,
    }
}

/// The return entry on the cursor's current line.
fn return_entry_exec(c: &Cursor) -> (r: NumPyReturns)
    requires
        c.wf(),
    ensures
        r == numpy_return(c.b(), c.line as int),
{
    let (ts, te) = c.trimmed_bounds(c.line);
    match find_entry_colon(c.bytes, ts, te) {
        Some(cl) => NumPyReturns {
            range: rng(ts, te),
            name: Some(rng(ts, skip_ws_back_exec(c.bytes, ts, cl))),
            colon: Some(rng(cl, cl + 1)),
            return_type: trimmed_opt_exec(c.bytes, cl + 1, te),
            description: None,
        },
        None => NumPyReturns {
            range: rng(ts, te),
            name: None,
            colon: None,
            return_type: Some(rng(ts, te)),
            description: None,
        },
    }
}

/// `type : description` on the cursor's current line.
fn typed_entry_exec(c: &Cursor) -> (r: (TextRange, Option<TextRange>, Option<TextRange>))
    requires
        c.wf(),
    ensures
        r == typed_entry(c.b(), c.line as int),
{
    let (ts, te) = c.trimmed_bounds(c.line);
    match find_entry_colon(c.bytes, ts, te) {
        Some(cl) => (
            rng(ts, skip_ws_back_exec(c.bytes, ts, cl)),
            Some(rng(cl, cl + 1)),
            trimmed_opt_exec(c.bytes, cl + 1, te),
        ),
        None => (rng(ts, te), None, None),
    }
}

/// The method entry on the cursor's current line.
fn method_entry_exec(c: &Cursor) -> (r: NumPyMethod)
    requires
        c.wf(),
    ensures
        r == numpy_method(c.b(), c.line as int),
{
    let (ts, te) = c.trimmed_bounds(c.line);
    match find_entry_colon(c.bytes, ts, te) {
        Some(cl) => NumPyMethod {
            range: rng(ts, te),
            name: rng(ts, skip_ws_back_exec(c.bytes, ts, cl)),
            colon: Some(rng(cl, cl + 1)),
            description: None,
        },
        None => NumPyMethod { range: rng(ts, te), name: rng(ts, te), colon: None, description: None },
    }
}

/// The attribute entry on the cursor's current line.
fn attribute_entry_exec(c: &Cursor) -> (r: NumPyAttribute)
    requires
        c.wf(),
    ensures
        r == numpy_attribute(c.b(), c.line as int),
{
    let (ts, te) = c.trimmed_bounds(c.line);
    let p = parse_name_and_type(c.bytes, ts, te);
    let name = if p.names.len() > 0 {
        p.names[0]
    } else {
        TextRange::empty()
    };
    NumPyAttribute { range: rng(ts, te), name, colon: p.colon, ty: p.param_type, description: None }
}

/// The See Also entry on the cursor's current line.
fn see_also_entry_exec(c: &Cursor) -> (r: SeeAlsoItem)
    requires
        c.wf(),
    ensures
        r@ == numpy_see_also(c.b(), c.line as int),
{
    let (ts, te) = c.trimmed_bounds(c.line);
    match find_entry_colon(c.bytes, ts, te) {
        Some(cl) => SeeAlsoItem {
            range: rng(ts, te),
            names: split_names_exec(c.bytes, ts, skip_ws_back_exec(c.bytes, ts, cl)),
            colon: Some(rng(cl, cl + 1)),
            description: trimmed_opt_exec(c.bytes, cl + 1, te),
        },
        None => SeeAlsoItem {
            range: rng(ts, te),
            names: split_names_exec(c.bytes, ts, te),
            colon: None,
            description: None,
        },
    }
}

/// The reference entry on the cursor's current line, and whether reading it
/// fails because the citation's closing bracket lies past the end of the line.
fn reference_entry_exec(c: &Cursor) -> (r: (NumPyReference, bool))
    requires
        c.wf(),
    ensures
        r == numpy_reference(c.b(), c.line as int),
{
    let ghost b = c.b();
    let (ts, te) = c.trimmed_bounds(c.line);
    let (_, lh) = c.line_bounds(c.line);
    proof {
        lemma_line_bounds(b, c.line as int);
    }
    let plain = NumPyReference {
        range: rng(ts, te),
        directive_marker: None,
        open_bracket: None,
        number: None,
        close_bracket: None,
        content: Some(rng(ts, te)),
    };
    let bytes = c.bytes;
    if te - ts >= 2 && bytes[ts] == 0x2E && bytes[ts + 1] == 0x2E {
        let q = skip_ws_exec(bytes, ts + 2, te);
        if q < te && bytes[q] == 0x5B {
            assert(is_citation(b, c.line as int));
            proof {
                lemma_any_close_bounds(b, q + 1, 1);
            }
            match find_matching_close(bytes, q) {
                Some(cl) => {
                    if cl + 1 > lh {
                        return (plain, true);
                    }
                    return (NumPyReference {
                        range: rng(ts, te),
                        directive_marker: Some(rng(ts, ts + 2)),
                        open_bracket: Some(rng(q, q + 1)),
                        number: trimmed_opt_exec(bytes, q + 1, cl),
                        close_bracket: Some(rng(cl, cl + 1)),
                        content: trimmed_opt_exec(bytes, cl + 1, lh),
                    }, false);
                },
                None => {
                    return (plain, false);
                },
            }
        }
    }
    (plain, false)
}

/// `body` with the entry parsed from the cursor's current line appended, and
/// whether reading the entry fails.
fn numpy_push_entry_exec(c: &Cursor, body: NumPySectionBody) -> (r: (NumPySectionBody, bool))
    requires
        c.wf(),
    ensures
        r.0@ == numpy_push_entry(c.b(), body@, c.line as int).0,
        r.1 == numpy_push_entry(c.b(), body@, c.line as int).1,
{
    match body {
        NumPySectionBody::Parameters(mut v) => {
            let ghost old_v = v@;
            let e = param_entry_exec(c);
            v.push(e);
            assert(params_view(v@) =~= params_view(old_v).push(e@));
            (NumPySectionBody::Parameters(v), false)
        },
        NumPySectionBody::OtherParameters(mut v) => {
            let ghost old_v = v@;
            let e = param_entry_exec(c);
            v.push(e);
            assert(params_view(v@) =~= params_view(old_v).push(e@));
            (NumPySectionBody::OtherParameters(v), false)
        },
        NumPySectionBody::Receives(mut v) => {
            let ghost old_v = v@;
            let e = param_entry_exec(c);
            v.push(e);
            assert(params_view(v@) =~= params_view(old_v).push(e@));
            (NumPySectionBody::Receives(v), false)
        },
        NumPySectionBody::Returns(mut v) => {
            v.push(return_entry_exec(c));
            (NumPySectionBody::Returns(v), false)
        },
        NumPySectionBody::Yields(mut v) => {
            v.push(return_entry_exec(c));
            (NumPySectionBody::Yields(v), false)
        },
        NumPySectionBody::Raises(mut v) => {
            let (ty, colon, description) = typed_entry_exec(c);
            let (ts, te) = c.trimmed_bounds(c.line);
            v.push(NumPyException { range: rng(ts, te), ty, colon, description });
            (NumPySectionBody::Raises(v), false)
        },
        NumPySectionBody::Warns(mut v) => {
            let (ty, colon, description) = typed_entry_exec(c);
            let (ts, te) = c.trimmed_bounds(c.line);
            v.push(NumPyWarning { range: rng(ts, te), ty, colon, description });
            (NumPySectionBody::Warns(v), false)
        },
        NumPySectionBody::Attributes(mut v) => {
            v.push(attribute_entry_exec(c));
            (NumPySectionBody::Attributes(v), false)
        },
        NumPySectionBody::Methods(mut v) => {
            v.push(method_entry_exec(c));
            (NumPySectionBody::Methods(v), false)
        },
        NumPySectionBody::SeeAlso(mut v) => {
            let ghost old_v = v@;
            let e = see_also_entry_exec(c);
            v.push(e);
            assert(see_also_view(v@) =~= see_also_view(old_v).push(e@));
            (NumPySectionBody::SeeAlso(v), false)
        },
        NumPySectionBody::References(mut v) => {
            let (e, failed) = reference_entry_exec(c);
            v.push(e);
            (NumPySectionBody::References(v), failed)
        },
        _ => (body, false),
    }
}

/// `body` with its last entry's description (and range) extended by the
/// continuation range `r`.
fn numpy_extend_last_exec(body: NumPySectionBody, r: TextRange) -> (res: NumPySectionBody)
    ensures
        res@ == numpy_extend_last(body@, r),
{
    match body {
        NumPySectionBody::Parameters(mut v) => {
            let ghost old_v = v@;
            let n = v.len();
            if n > 0 {
                let mut last = v.pop().unwrap();
                let ghost last0 = last@;
                last.description = match last.description {
                    Some(x) => {
                        let mut x = x;
                        x.extend(r);
                        Some(x)
                    },
                    None => Some(r),
                };
                last.range = TextRange { start: last.range.start, end: r.end };
                v.push(last);
                assert(params_view(v@) =~= params_view(old_v).update(n - 1, NumPyParameterV {
                    description: extend_opt(last0.description, r),
                    range: to_end(last0.range, r),
                    ..last0
                }));
            }
            NumPySectionBody::Parameters(v)
        },
        NumPySectionBody::OtherParameters(mut v) => {
            let ghost old_v = v@;
            let n = v.len();
            if n > 0 {
                let mut last = v.pop().unwrap();
                let ghost last0 = last@;
                last.description = match last.description {
                    Some(x) => {
                        let mut x = x;
                        x.extend(r);
                        Some(x)
                    },
                    None => Some(r),
                };
                last.range = TextRange { start: last.range.start, end: r.end };
                v.push(last);
                assert(params_view(v@) =~= params_view(old_v).update(n - 1, NumPyParameterV {
                    description: extend_opt(last0.description, r),
                    range: to_end(last0.range, r),
                    ..last0
                }));
            }
            NumPySectionBody::OtherParameters(v)
        },
        NumPySectionBody::Receives(mut v) => {
            let ghost old_v = v@;
            let n = v.len();
            if n > 0 {
                let mut last = v.pop().unwrap();
                let ghost last0 = last@;
                last.description = match last.description {
                    Some(x) => {
                        let mut x = x;
                        x.extend(r);
                        Some(x)
                    },
                    None => Some(r),
                };
                last.range = TextRange { start: last.range.start, end: r.end };
                v.push(last);
                assert(params_view(v@) =~= params_view(old_v).update(n - 1, NumPyParameterV {
                    description: extend_opt(last0.description, r),
                    range: to_end(last0.range, r),
                    ..last0
                }));
            }
            NumPySectionBody::Receives(v)
        },
        NumPySectionBody::Returns(mut v) => {
            let n = v.len();
            if n > 0 {
                let last = v[n - 1];
                let d = match last.description {
                    Some(x) => {
                        let mut x = x;
                        x.extend(r);
                        Some(x)
                    },
                    None => Some(r),
                };
                v.set(n - 1, NumPyReturns { description: d, range: TextRange { start: last.range.start, end: r.end }, ..last });
            }
            NumPySectionBody::Returns(v)
        },
        NumPySectionBody::Yields(mut v) => {
            let n = v.len();
            if n > 0 {
                let last = v[n - 1];
                let d = match last.description {
                    Some(x) => {
                        let mut x = x;
                        x.extend(r);
                        Some(x)
                    },
                    None => Some(r),
                };
                v.set(n - 1, NumPyReturns { description: d, range: TextRange { start: last.range.start, end: r.end }, ..last });
            }
            NumPySectionBody::Yields(v)
        },
        NumPySectionBody::Raises(mut v) => {
            let n = v.len();
            if n > 0 {
                let last = v[n - 1];
                let d = match last.description {
                    Some(x) => {
                        let mut x = x;
                        x.extend(r);
                        Some(x)
                    },
                    None => Some(r),
                };
                v.set(n - 1, NumPyException { description: d, range: TextRange { start: last.range.start, end: r.end }, ..last });
            }
            NumPySectionBody::Raises(v)
        },
        NumPySectionBody::Warns(mut v) => {
            let n = v.len();
            if n > 0 {
                let last = v[n - 1];
                let d = match last.description {
                    Some(x) => {
                        let mut x = x;
                        x.extend(r);
                        Some(x)
                    },
                    None => Some(r),
                };
                v.set(n - 1, NumPyWarning { description: d, range: TextRange { start: last.range.start, end: r.end }, ..last });
            }
            NumPySectionBody::Warns(v)
        },
        NumPySectionBody::Attributes(mut v) => {
            let n = v.len();
            if n > 0 {
                let last = v[n - 1];
                let d = match last.description {
                    Some(x) => {
                        let mut x = x;
                        x.extend(r);
                        Some(x)
                    },
                    None => Some(r),
                };
                v.set(n - 1, NumPyAttribute { description: d, range: TextRange { start: last.range.start, end: r.end }, ..last });
            }
            NumPySectionBody::Attributes(v)
        },
        NumPySectionBody::Methods(mut v) => {
            let n = v.len();
            if n > 0 {
                let last = v[n - 1];
                let d = match last.description {
                    Some(x) => {
                        let mut x = x;
                        x.extend(r);
                        Some(x)
                    },
                    None => Some(r),
                };
                v.set(n - 1, NumPyMethod { description: d, range: TextRange { start: last.range.start, end: r.end }, ..last });
            }
            NumPySectionBody::Methods(v)
        },
        NumPySectionBody::SeeAlso(mut v) => {
            let ghost old_v = v@;
            let n = v.len();
            if n > 0 {
                let mut last = v.pop().unwrap();
                let ghost last0 = last@;
                last.description = match last.description {
                    Some(x) => {
                        let mut x = x;
                        x.extend(r);
                        Some(x)
                    },
                    None => Some(r),
                };
                last.range = TextRange { start: last.range.start, end: r.end };
                v.push(last);
                assert(see_also_view(v@) =~= see_also_view(old_v).update(n - 1, SeeAlsoItemV {
                    description: extend_opt(last0.description, r),
                    range: to_end(last0.range, r),
                    ..last0
                }));
            }
            NumPySectionBody::SeeAlso(v)
        },
        NumPySectionBody::References(mut v) => {
            let n = v.len();
            if n > 0 {
                let last = v[n - 1];
                let d = match last.content {
                    Some(x) => {
                        let mut x = x;
                        x.extend(r);
                        Some(x)
                    },
                    None => Some(r),
                };
                v.set(n - 1, NumPyReference { content: d, range: TextRange { start: last.range.start, end: r.end }, ..last });
            }
            NumPySectionBody::References(v)
        },
        _ => body,
    }
}

/// Free text extended by the range `r`.
fn numpy_extend_text_exec(body: NumPySectionBody, r: TextRange) -> (res: NumPySectionBody)
    ensures
        res@ == numpy_extend_text(body@, r),
{
    match body {
        NumPySectionBody::Warnings(t) => NumPySectionBody::Warnings(match t {
            Some(x) => {
                let mut x = x;
                x.extend(r);
                Some(x)
            },
            None => Some(r),
        }),
        NumPySectionBody::Notes(t) => NumPySectionBody::Notes(match t {
            Some(x) => {
                let mut x = x;
                x.extend(r);
                Some(x)
            },
            None => Some(r),
        }),
        NumPySectionBody::Examples(t) => NumPySectionBody::Examples(match t {
            Some(x) => {
                let mut x = x;
                x.extend(r);
                Some(x)
            },
            None => Some(r),
        }),
        NumPySectionBody::Unknown(t) => NumPySectionBody::Unknown(match t {
            Some(x) => {
                let mut x = x;
                x.extend(r);
                Some(x)
            },
            None => Some(r),
        }),
        _ => body,
    }
}

/// One non-blank, non-header content line (the cursor's current line) of
/// the current section: the new body and entry indentation.
fn numpy_body_line_exec(c: &Cursor, body: NumPySectionBody, indent: Option<u64>) -> (r: (
    NumPySectionBody,
    Option<u64>,
    bool,
))
    requires
        c.wf(),
    ensures
        r.0@ == numpy_body_line(c.b(), body@, opt_cols(indent), c.line as int).0,
        opt_cols(r.1) == numpy_body_line(c.b(), body@, opt_cols(indent), c.line as int).1,
        r.2 == numpy_body_line(c.b(), body@, opt_cols(indent), c.line as int).2,
{
    let is_text = match &body {
        NumPySectionBody::Warnings(_) | NumPySectionBody::Notes(_) | NumPySectionBody::Examples(_)
        | NumPySectionBody::Unknown(_) => true,
        _ => false,
    };
    assert(is_text == !numpy_is_entry_body(body@));
    if !is_text {
        let cols = c.current_indent_columns();
        match indent {
            Some(base) => if cols > base {
                (numpy_extend_last_exec(body, c.current_trimmed_range()), indent, false)
            } else {
                let (nb, failed) = numpy_push_entry_exec(c, body);
                (nb, indent, failed)
            },
            None => {
                let (nb, failed) = numpy_push_entry_exec(c, body);
                (nb, Some(cols), failed)
            },
        }
    } else {
        (numpy_extend_text_exec(body, c.current_trimmed_range()), indent, false)
    }
}

/// Executable section-phase state.
struct NumPyState {
    items: Vec<NumPyDocstringItem>,
    current: Option<(NumPySectionHeader, NumPySectionBody)>,
    entry_indent: Option<u64>,
    failed: bool,
}

/// The view of a pending section.
pub open spec fn numpy_current_view(cur: Option<(NumPySectionHeader, NumPySectionBody)>) -> Option<
    (NumPySectionHeader, NumPySectionBodyV),
> {
    match cur {
        Some((h, body)) => Some((h, body@)),
        None => None,
    }
}

impl View for NumPyState {
    type V = NumPyStateV;

    closed spec fn view(&self) -> NumPyStateV {
        NumPyStateV {
            items: items_view(self.items@),
            current: numpy_current_view(self.current),
            entry_indent: opt_cols(self.entry_indent),
            failed: self.failed,
        }
    }
}

/// `items` with the pending section (if any) appended, at the cursor's line.
fn numpy_flush_exec(
    c: &Cursor,
    items: Vec<NumPyDocstringItem>,
    current: Option<(NumPySectionHeader, NumPySectionBody)>,
) -> (r: Vec<NumPyDocstringItem>)
    requires
        c.wf(),
    ensures
        items_view(r@) == numpy_flush(
            c.b(),
            items_view(items@),
            numpy_current_view(current),
            c.line as int,
        ),
{
    let mut items = items;
    match current {
        Some((h, body)) => {
            let ghost old_items = items@;
            let range = c.span_back_from_cursor(h.range.start.0 as usize, 0);
            let item = NumPyDocstringItem::Section(NumPySection { range, header: h, body });
            items.push(item);
            assert(items_view(items@) =~= items_view(old_items).push(item@));
            items
        },
        None => items,
    }
}

/// Processing of the cursor's current (non-blank, non-header) line in the
/// section phase.
fn numpy_line_exec(c: &Cursor, st: NumPyState) -> (r: NumPyState)
    requires
        c.wf(),
    ensures
        r@ == numpy_line(c.b(), st@, c.line as int),
{
    let NumPyState { items, current, entry_indent, failed } = st;
    match current {
        Some((h, body)) => {
            let (nb, ni, failed_here) = numpy_body_line_exec(c, body, entry_indent);
            NumPyState { items, current: Some((h, nb)), entry_indent: ni, failed: failed || failed_here }
        },
        None => {
            let mut items = items;
            let ghost old_items = items@;
            let item = NumPyDocstringItem::StrayLine(c.current_trimmed_range());
            items.push(item);
            assert(items_view(items@) =~= items_view(old_items).push(item@));
            NumPyState { items, current: None, entry_indent, failed }
        },
    }
}

/// `first_nonblank_from` finds a non-blank line at or after its start.
pub proof fn lemma_first_nonblank(b: Seq<u8>, k: int)
    ensures
        first_nonblank_from(b, k) >= k,
        first_nonblank_from(b, k) < line_count(b) ==> !is_blank(b, first_nonblank_from(b, k)),
        k <= line_count(b) ==> first_nonblank_from(b, k) <= line_count(b),
    decreases line_count(b) - k,
{
    if k < line_count(b) && is_blank(b, k) {
        lemma_first_nonblank(b, k + 1);
    }
}

/// `last_nonblank_before` finds a non-blank line in its range, or reports
/// none with `lo - 1`.
pub proof fn lemma_last_nonblank(b: Seq<u8>, lo: int, k: int)
    ensures
        last_nonblank_before(b, lo, k) >= lo ==> lo <= last_nonblank_before(b, lo, k) < k && !is_blank(
            b,
            last_nonblank_before(b, lo, k),
        ),
        last_nonblank_before(b, lo, k) < lo ==> last_nonblank_before(b, lo, k) == lo - 1,
    decreases k - lo,
{
    if k > lo && is_blank(b, k - 1) {
        lemma_last_nonblank(b, lo, k - 1);
    }
}

/// The summary phase, with the cursor at the first non-blank line; leaves
/// the cursor after the summary.
fn summary_phase(c: &mut Cursor) -> (r: Option<TextRange>)
    requires
        old(c).wf(),
        old(c).line < old(c).total,
        !is_blank(old(c).b(), old(c).line as int),
    ensures
        final(c).wf(),
        final(c).b() == old(c).b(),
        final(c).total == old(c).total,
        r == summary_at(old(c).b(), old(c).line as int),
        final(c).line == after_summary(old(c).b(), old(c).line as int),
        final(c).line <= final(c).total,
{
    let ghost b = c.b();
    let ghost n = c.total as int;
    let s0 = c.line;
    if numpy_header_at(c, c.line).is_some() {
        return None;
    }
    while !c.is_eof() && numpy_header_at(c, c.line).is_none() && !c.current_is_blank()
        invariant
            c.wf(),
            c.b() == b,
            c.total == n,
            n == line_count(b),
            s0 <= c.line <= n,
            summary_end(b, c.line as int) == summary_end(b, s0 as int),
            c.line == s0 ==> !is_blank(b, s0 as int) && numpy_header(b, s0 as int) is None,
        decreases n - c.line,
    {
        c.advance();
    }
    let (a, _) = c.trimmed_bounds(s0);
    let (_, z) = c.trimmed_bounds(c.line - 1);
    Some(TextRange { start: TextSize(a as u32), end: TextSize(z as u32) })
}

/// The deprecation phase, with the cursor at line `p` (after the summary and
/// blank lines); leaves the cursor at the first non-blank line after it.
fn deprecation_phase(c: &mut Cursor) -> (r: Option<NumPyDeprecation>)
    requires
        old(c).wf(),
        old(c).line <= old(c).total,
    ensures
        final(c).wf(),
        final(c).b() == old(c).b(),
        final(c).total == old(c).total,
        r == deprecation_at(old(c).b(), old(c).line as int),
        final(c).line == after_deprecation(old(c).b(), old(c).line as int),
        final(c).line <= final(c).total,
{
    let ghost b = c.b();
    let ghost n = c.total as int;
    let dep_lit = ".. deprecated::".as_bytes();
    proof {
        reveal_strlit(".. deprecated::");
        vstd::string::is_ascii_spec_bytes(".. deprecated::");
        assert(vstd::string::is_ascii(".. deprecated::"));
    }
    if c.is_eof() || numpy_header_at(c, c.line).is_some() {
        return None;
    }
    let (ts, te) = c.trimmed_bounds(c.line);
    if !starts_with_exec(c.bytes, ts, te, dep_lit) {
        return None;
    }
    let p = c.line;
    let base = c.current_indent_columns();
    c.advance();
    let mut first: Option<usize> = None;
    let mut last: usize = p;
    while !c.is_eof()
        invariant
            c.wf(),
            c.b() == b,
            c.total == n,
            n == line_count(b),
            p < c.line <= n,
            base == indent_cols(b, p as int),
            dedent_line(b, c.line as int, base as int) == dedent_line(b, p + 1, base as int),
            first is None ==> first_nonblank_from(b, p + 1) == first_nonblank_from(b, c.line as int),
            first matches Some(f) ==> f == first_nonblank_from(b, p + 1) && f < c.line,
            first is Some ==> last == last_nonblank_before(b, p + 1, c.line as int),
        ensures
            c.line as int == dedent_line(b, p + 1, base as int),
        decreases n - c.line,
    {
        let blank = c.current_is_blank();
        if !blank && c.current_indent_columns() <= base {
            break;
        }
        if !blank {
            if first.is_none() {
                first = Some(c.line);
            }
            last = c.line;
        }
        c.advance();
    }
    let ghost q = c.line as int;
    assert(q == dedent_line(b, p + 1, base as int));
    proof {
        lemma_first_nonblank(b, q);
    }
    let desc = match first {
        Some(f) => {
            let (a, _) = c.trimmed_bounds(f);
            let (_, z) = c.trimmed_bounds(last);
            Some(TextRange { start: TextSize(a as u32), end: TextSize(z as u32) })
        },
        None => None,
    };
    let (vl, vh) = trim_exec(c.bytes, ts + 15, te);
    let end = match desc {
        Some(d) => d.end,
        None => TextSize(te as u32),
    };
    c.skip_blank_lines();
    Some(
        NumPyDeprecation {
            range: TextRange { start: TextSize(ts as u32), end },
            directive_marker: Some(rng(ts, ts + 2)),
            keyword: Some(rng(ts + 3, ts + 13)),
            double_colon: Some(rng(ts + 13, ts + 15)),
            version: rng(vl, vh),
            description: match desc {
                Some(d) => d,
                None => TextRange::empty(),
            },
        },
    )
}

/// The extended-summary phase, with the cursor at line `x`; leaves the
/// cursor where the section phase starts.
fn extended_phase(c: &mut Cursor) -> (r: Option<TextRange>)
    requires
        old(c).wf(),
        old(c).line <= old(c).total,
    ensures
        final(c).wf(),
        final(c).b() == old(c).b(),
        final(c).total == old(c).total,
        final(c).line <= final(c).total,
        r == extended_at(old(c).b(), old(c).line as int),
        final(c).line == after_extended(old(c).b(), old(c).line as int),
{
    let ghost b = c.b();
    let ghost n = c.total as int;
    if c.is_eof() || numpy_header_at(c, c.line).is_some() {
        return None;
    }
    let x = c.line;
    let mut last: usize = x;
    let mut any = false;
    while !c.is_eof() && numpy_header_at(c, c.line).is_none()
        invariant
            c.wf(),
            c.b() == b,
            c.total == n,
            n == line_count(b),
            x <= c.line <= n,
            next_header(b, c.line as int) == next_header(b, x as int),
            any ==> last == last_nonblank_before(b, x as int, c.line as int) && last >= x,
            !any ==> last_nonblank_before(b, x as int, c.line as int) < x,
        decreases n - c.line,
    {
        if !c.current_is_blank() {
            last = c.line;
            any = true;
        }
        c.advance();
    }
    if any {
        let (a, _) = c.trimmed_bounds(x);
        let (_, z) = c.trimmed_bounds(last);
        Some(TextRange { start: TextSize(a as u32), end: TextSize(z as u32) })
    } else {
        None
    }
}

/// The section phase from the cursor's line to the end: the items, and
/// whether reading some line failed.
fn sections_phase(c: &mut Cursor) -> (r: (Vec<NumPyDocstringItem>, bool))
    requires
        old(c).wf(),
        old(c).line <= old(c).total,
    ensures
        final(c).wf(),
        final(c).b() == old(c).b(),
        items_view(r.0@) == numpy_flush(
            old(c).b(),
            numpy_sections(old(c).b(), old(c).line as int, init_numpy_state()).items,
            numpy_sections(old(c).b(), old(c).line as int, init_numpy_state()).current,
            line_count(old(c).b()),
        ),
        r.1 == numpy_sections(old(c).b(), old(c).line as int, init_numpy_state()).failed,
{
    let ghost b = c.b();
    let ghost n = c.total as int;
    let mut st = NumPyState { items: Vec::new(), current: None, entry_indent: None, failed: false };
    assert(st@ == init_numpy_state()) by {
        assert(items_view(st.items@) =~= seq![]);
    }
    let ghost target = numpy_sections(b, c.line as int, st@);
    while !c.is_eof()
        invariant
            c.wf(),
            c.b() == b,
            c.total == n,
            n == line_count(b),
            c.line <= n,
            numpy_sections(b, c.line as int, st@) == target,
        decreases n - c.line,
    {
        if c.current_is_blank() {
            c.advance();
        } else {
            match numpy_header_at(c, c.line) {
                Some(h) => {
                    let NumPyState { items, current, entry_indent: _, failed } = st;
                    let items = numpy_flush_exec(c, items, current);
                    st = NumPyState {
                        items,
                        current: Some((h, NumPySectionBody::new(h.kind))),
                        entry_indent: None,
                        failed,
                    };
                    c.line = c.line + 2;
                },
                None => {
                    st = numpy_line_exec(c, st);
                    c.advance();
                },
            }
        }
    }
    let NumPyState { items, current, entry_indent: _, failed } = st;
    (numpy_flush_exec(c, items, current), failed)
}

/// `d` is the NumPy-style parse of `input`.
pub open spec fn is_numpy_parse(input: &str, d: NumPyDocstringV) -> bool {
    let b = input.spec_bytes();
    let p = numpy_parse(b);
    &&& d.source == input@
    &&& d.range == (if p.empty {
        TextRange::spec_empty()
    } else {
        mk_range(0, b.len() as int)
    })
    &&& d.summary == p.summary
    &&& d.deprecation == p.deprecation
    &&& d.extended_summary == p.extended_summary
    &&& d.items == numpy_items(b)
}

/// Parse a NumPy-style docstring.
///
/// Every offset in the result is a byte offset into `input`.  The summary is
/// the first paragraph, an optional `.. deprecated::` directive may follow,
/// the extended summary is the text up to the first section header, then
/// come the sections (a name line underlined by dashes) and the stray lines
/// outside any section, in document order.
///
/// A reference citation whose closing bracket lies past the end of its line
/// is read as plain text; [`try_parse_numpy`] tells such inputs apart.
pub fn parse_numpy(input: &str) -> (r: NumPyDocstring)
    requires
        input.spec_bytes().len() <= u32::MAX,
    ensures
        is_numpy_parse(input, r@),
{
    read_numpy(input).0
}

/// Parse a NumPy-style docstring, or `None` when a reference citation's
/// closing bracket lies past the end of its line (where [`parse_numpy`]
/// reads the citation as plain text).
pub fn try_parse_numpy(input: &str) -> (r: Option<NumPyDocstring>)
    requires
        input.spec_bytes().len() <= u32::MAX,
    ensures
        r is None <==> numpy_fails(input.spec_bytes()),
        r matches Some(d) ==> is_numpy_parse(input, d@),
{
    let (doc, failed) = read_numpy(input);
    if failed {
        None
    } else {
        Some(doc)
    }
}

/// The NumPy-style reading of `input`, and whether it fails.
fn read_numpy(input: &str) -> (r: (NumPyDocstring, bool))
    requires
        input.spec_bytes().len() <= u32::MAX,
    ensures
        is_numpy_parse(input, r.0@),
        r.1 == numpy_fails(input.spec_bytes()),
{
    let mut c = Cursor::new(input);
    let ghost b = c.b();
    proof {
        lemma_first_nonblank(b, 0);
    }
    c.skip_blank_lines();
    if c.is_eof() {
        let doc = NumPyDocstring::new(input);
        assert(numpy_items(b) =~= seq![]);
        assert(doc@.items =~= numpy_items(b));
        return (doc, false);
    }
    let ghost s0 = c.line as int;
    let summary = summary_phase(&mut c);
    c.skip_blank_lines();
    let ghost p = c.line as int;
    let deprecation = deprecation_phase(&mut c);
    let ghost x = c.line as int;
    let extended_summary = extended_phase(&mut c);
    let ghost e2 = c.line as int;
    let (items, failed) = sections_phase(&mut c);
    let range = c.full_range();
    assert(p == first_nonblank_from(b, after_summary(b, s0)));
    assert(x == after_deprecation(b, p));
    assert(e2 == after_extended(b, x));
    let doc = NumPyDocstring {
        source: input.to_owned(),
        range,
        summary,
        deprecation,
        extended_summary,
        items,
    };
    (doc, failed)
}

} // verus!
