//! Google-style docstring parser.
//!
//! ```text
//! Brief summary.
//!
//! Extended description.
//!
//! Args:
//!     param1 (type): Description of param1.
//!     param2 (type, optional): Description of param2.
//!
//! Returns:
//!     type: Description of return value.
//! ```
use vstd::prelude::*;
use vstd::string::StringSliceAdditionalSpecFns;
use crate::cursor::{Cursor, tlo, thi, mk_range, trimmed_range, indent_cols, is_blank, line_count, first_nonblank_from, last_nonblank_before, lemma_line_bounds, rng, line_hi, lemma_line_order};
use crate::lexical::{lower_seq, skip_ws, skip_ws_back, trim_lo, trim_hi, eq_bytes, skip_ws_exec, skip_ws_back_exec, trim_exec, eq_bytes_exec, lemma_skip_ws_back_bounds};
use crate::unicode::{chars_alnum_or_ws, chars_alnum_or_ws_exec};
use crate::styles::utils::{entry_colon, find_entry_colon, comma_parts, split_comma_parts, bracket_after_ws, find_bracket_after_ws, matching_close_in, find_matching_close_in, closer_of, lemma_entry_colon_bounds, lemma_same_kind_close_bounds, lemma_bracket_after_ws_bounds, split_names_from, split_names_exec, is_open_bracket};
use crate::styles::google::ast::{GoogleSectionHeader, GoogleSectionKind, GoogleSectionBody, GoogleSectionBodyV, GoogleArg, GoogleException, GoogleWarning, GoogleAttribute, GoogleMethod, GoogleSeeAlsoItem, GoogleSeeAlsoItemV, GoogleReturns, GoogleDocstringItem, GoogleDocstringItemV, GoogleSection, GoogleSectionV, GoogleDocstring, GoogleDocstringV, google_kind, google_kind_of, empty_body};
use crate::text::{TextRange, TextSize};

verus! {

broadcast use vstd::seq::group_seq_axioms;

// ===========================================================================
// Section headers
// ===========================================================================

/// ASCII letter.
pub open spec fn is_ascii_alpha(c: u8) -> bool {
    (0x41 <= c <= 0x5A) || (0x61 <= c <= 0x7A)
}

/// `[s, e)` contains the byte `c`.
pub open spec fn contains_byte(b: Seq<u8>, s: int, e: int, c: u8) -> bool {
    exists|i: int| s <= i < e && b[i] == c
}

/// End of the section name in the trimmed line `[ts, te)`, and whether the
/// line ends with a colon (the name then excludes the colon and the
/// whitespace before it).
pub open spec fn section_name_end(b: Seq<u8>, ts: int, te: int) -> (int, bool) {
    if ts < te && b[te - 1] == 0x3A {
        (skip_ws_back(b, ts, te - 1), true)
    } else {
        (te, false)
    }
}

/// The section header on line `k`, if the line is one.
///
/// A header is a name starting with an ASCII letter, either followed by a
/// colon (any name made of alphanumerics and ASCII whitespace), or without a
/// colon (only a known section name).  Matching of names is ASCII
/// case-insensitive.
pub open spec fn google_header(b: Seq<u8>, k: int) -> Option<GoogleSectionHeader> {
    let ts = tlo(b, k);
    let te = thi(b, k);
    let ne = section_name_end(b, ts, te).0;
    let has_colon = section_name_end(b, ts, te).1;
    let kind = google_kind(lower_seq(b.subrange(ts, ne)));
    if ne <= ts || !is_ascii_alpha(b[ts]) {
        None
    } else if has_colon && (contains_byte(b, ts, ne, 0x3A) || !chars_alnum_or_ws(b, ts, ne)) {
        None
    } else if !has_colon && kind == GoogleSectionKind::Unknown {
        None
    } else {
        Some(
            GoogleSectionHeader {
                range: mk_range(ts, te),
                kind,
                name: mk_range(ts, ne),
                colon: if has_colon {
                    Some(mk_range(te - 1, te))
                } else {
                    None
                },
            },
        )
    }
}

// ===========================================================================
// Entry headers
// ===========================================================================

/// Bracketed type information of an entry header.
#[derive(Clone, Copy)]
pub struct TypeInfo {
    pub open_bracket: TextRange,
    pub ty: Option<TextRange>,
    pub close_bracket: TextRange,
    pub optional: Option<TextRange>,
}

/// Components of an entry header line such as `name (type, optional): desc`.
#[derive(Clone, Copy)]
pub struct EntryHeader {
    pub range: TextRange,
    pub name: TextRange,
    pub type_info: Option<TypeInfo>,
    pub colon: Option<TextRange>,
    pub first_description: TextRange,
}

/// Scan the comma-separated segments `parts[i..]` of a type annotation,
/// remembering the start of the last `optional` segment and the trimmed end
/// of the last other non-empty segment.
pub open spec fn optional_scan(
    b: Seq<u8>,
    parts: Seq<(int, int)>,
    i: int,
    opt: Option<int>,
    type_end: int,
) -> (Option<int>, int)
    decreases parts.len() - i,
{
    if i >= parts.len() || i < 0 {
        (opt, type_end)
    } else {
        let a = parts[i].0;
        let z = parts[i].1;
        let sa = trim_lo(b, a, z);
        let sz = trim_hi(b, a, z);
        if eq_bytes(b, sa, sz, "optional".spec_bytes()) {
            optional_scan(b, parts, i + 1, Some(sa), type_end)
        } else if sa < sz {
            optional_scan(b, parts, i + 1, opt, skip_ws_back(b, a, z))
        } else {
            optional_scan(b, parts, i + 1, opt, type_end)
        }
    }
}

/// Position before the trailing commas of `[s, j)`.
pub open spec fn skip_commas_back(b: Seq<u8>, s: int, j: int) -> int
    decreases j - s,
{
    if s < j && b[j - 1] == 0x2C {
        skip_commas_back(b, s, j - 1)
    } else {
        j
    }
}

/// `optional` marker stripping on the type text `[tl, th)`: the end of the
/// cleaned type and the start of the `optional` marker, if any.
pub open spec fn strip_optional(b: Seq<u8>, tl: int, th: int) -> (int, Option<int>) {
    let scan = optional_scan(b, comma_parts(b, tl, th), 0, None, tl);
    match scan.0 {
        Some(o) => (skip_ws_back(b, tl, skip_commas_back(b, tl, scan.1)), Some(o)),
        None => (th, None),
    }
}

/// Description after a closing bracket: `[p, te)` with optional leading
/// whitespace, then `:` and the description.
pub open spec fn desc_after_close(b: Seq<u8>, p: int, te: int) -> (TextRange, Option<TextRange>) {
    let q = skip_ws(b, p, te);
    if q < te && b[q] == 0x3A {
        let d = skip_ws(b, q + 1, te);
        (
            if d < te {
                mk_range(d, te)
            } else {
                TextRange::spec_empty()
            },
            Some(mk_range(q, q + 1)),
        )
    } else {
        (TextRange::spec_empty(), None)
    }
}

/// Entry header with a bracketed type: opener at `p`, closer at `c`.
pub open spec fn bracketed_entry(b: Seq<u8>, ts: int, te: int, p: int, c: int) -> EntryHeader {
    let name = mk_range(ts, skip_ws_back(b, ts, p));
    let tl = trim_lo(b, p + 1, c);
    let th = trim_hi(b, p + 1, c);
    let so = strip_optional(b, tl, th);
    let ty = if so.0 > tl {
        Some(mk_range(tl, so.0))
    } else {
        None
    };
    let optional = match so.1 {
        Some(o) => Some(mk_range(o, o + 8)),
        None => None,
    };
    let dc = desc_after_close(b, c + 1, te);
    let desc = dc.0;
    let colon = dc.1;
    let range_end = if desc.lo() != desc.hi() {
        desc.hi()
    } else if colon is Some {
        colon->0.hi()
    } else {
        c + 1
    };
    EntryHeader {
        range: mk_range(ts, range_end),
        name,
        type_info: Some(
            TypeInfo {
                open_bracket: mk_range(p, p + 1),
                ty,
                close_bracket: mk_range(c, c + 1),
                optional,
            },
        ),
        colon,
        first_description: desc,
    }
}

/// Entry header without a bracketed type.
pub open spec fn plain_entry(b: Seq<u8>, ts: int, te: int) -> EntryHeader {
    match entry_colon(b, ts, te) {
        Some(c) => {
            let d = skip_ws(b, c + 1, te);
            EntryHeader {
                range: mk_range(
                    ts,
                    if d < te {
                        te
                    } else {
                        c + 1
                    },
                ),
                name: mk_range(ts, skip_ws_back(b, ts, c)),
                type_info: None,
                colon: Some(mk_range(c, c + 1)),
                first_description: if d < te {
                    mk_range(d, te)
                } else {
                    TextRange::spec_empty()
                },
            }
        },
        None => EntryHeader {
            range: mk_range(ts, te),
            name: mk_range(ts, te),
            type_info: None,
            colon: None,
            first_description: TextRange::spec_empty(),
        },
    }
}

/// The first line from `j` on, before the next section header, within whose
/// trimmed end the bracket opened at `p` is closed, with the closer's
/// position.
pub open spec fn entry_close_line(b: Seq<u8>, p: int, j: int) -> Option<(int, int)>
    decreases line_count(b) - j,
{
    if j >= line_count(b) || google_header(b, j) is Some {
        None
    } else {
        match matching_close_in(b, p, thi(b, j)) {
            Some(c) => Some((j, c)),
            None => entry_close_line(b, p, j + 1),
        }
    }
}

/// The bracketed type of the entry starting on line `k`, as the opener's
/// position, the closer's position and the line of the closer: the first
/// opening bracket after whitespace on the line, closed on the line or on a
/// later line of the section body.
pub open spec fn entry_bracket(b: Seq<u8>, k: int) -> Option<(int, int, int)> {
    let ts = tlo(b, k);
    let te = thi(b, k);
    match bracket_after_ws(b, ts + 1, te) {
        Some(p) => match matching_close_in(b, p, te) {
            Some(c) => Some((p, c, k)),
            None => match entry_close_line(b, p, k + 1) {
                Some((j, c)) => Some((p, c, j)),
                None => None,
            },
        },
        None => None,
    }
}

/// The last line of the entry starting on line `k`: the line where its
/// bracketed type closes, or `k` itself.
pub open spec fn entry_last_line(b: Seq<u8>, k: int) -> int {
    match entry_bracket(b, k) {
        Some((p, c, j)) => j,
        None => k,
    }
}

/// The entry header starting on line `k`: `name (type): desc` when an
/// opening bracket preceded by whitespace is closed on the line or on a later
/// line of the section body (the type then spans those lines, and the
/// description follows the closer on its line), otherwise `name: desc`
/// (colon outside brackets), otherwise a bare name.
pub open spec fn google_entry(b: Seq<u8>, k: int) -> EntryHeader {
    let ts = tlo(b, k);
    let te = thi(b, k);
    match entry_bracket(b, k) {
        Some((p, c, j)) => bracketed_entry(b, ts, thi(b, j), p, c),
        None => plain_entry(b, ts, te),
    }
}

/// The entry parsed from line `k` appended to `body`.
pub open spec fn push_entry(b: Seq<u8>, body: GoogleSectionBodyV, k: int) -> GoogleSectionBodyV {
    let h = google_entry(b, k);
    let range = mk_range(
        tlo(b, k),
        if h.first_description.lo() != h.first_description.hi() {
            h.first_description.hi()
        } else {
            h.range.hi()
        },
    );
    let ty = match h.type_info {
        Some(t) => t.ty,
        None => None,
    };
    let optional = match h.type_info {
        Some(t) => t.optional,
        None => None,
    };
    let open_bracket = match h.type_info {
        Some(t) => Some(t.open_bracket),
        None => None,
    };
    let close_bracket = match h.type_info {
        Some(t) => Some(t.close_bracket),
        None => None,
    };
    let arg = GoogleArg {
        range,
        name: h.name,
        open_bracket,
        ty,
        close_bracket,
        colon: h.colon,
        description: h.first_description,
        optional,
    };
    match body {
        GoogleSectionBodyV::Args(v) => GoogleSectionBodyV::Args(v.push(arg)),
        GoogleSectionBodyV::KeywordArgs(v) => GoogleSectionBodyV::KeywordArgs(v.push(arg)),
        GoogleSectionBodyV::OtherParameters(v) => GoogleSectionBodyV::OtherParameters(v.push(arg)),
        GoogleSectionBodyV::Receives(v) => GoogleSectionBodyV::Receives(v.push(arg)),
        GoogleSectionBodyV::Raises(v) => GoogleSectionBodyV::Raises(
            v.push(
                GoogleException {
                    range,
                    ty: h.name,
                    colon: h.colon,
                    description: h.first_description,
                },
            ),
        ),
        GoogleSectionBodyV::Warns(v) => GoogleSectionBodyV::Warns(
            v.push(
                GoogleWarning {
                    range,
                    warning_type: h.name,
                    colon: h.colon,
                    description: h.first_description,
                },
            ),
        ),
        GoogleSectionBodyV::Attributes(v) => GoogleSectionBodyV::Attributes(
            v.push(
                GoogleAttribute {
                    range,
                    name: h.name,
                    open_bracket,
                    ty,
                    close_bracket,
                    colon: h.colon,
                    description: h.first_description,
                },
            ),
        ),
        GoogleSectionBodyV::Methods(v) => GoogleSectionBodyV::Methods(
            v.push(
                GoogleMethod {
                    range,
                    name: h.name,
                    open_bracket,
                    ty,
                    close_bracket,
                    colon: h.colon,
                    description: h.first_description,
                },
            ),
        ),
        GoogleSectionBodyV::SeeAlso(v) => GoogleSectionBodyV::SeeAlso(
            v.push(
                GoogleSeeAlsoItemV {
                    range,
                    names: split_names_from(b, h.name.lo(), h.name.hi(), h.name.lo()),
                    colon: h.colon,
                    description: if h.first_description.lo() == h.first_description.hi() {
                        None
                    } else {
                        Some(h.first_description)
                    },
                },
            ),
        ),
        _ => body,
    }
}

/// Extends a description with a continuation line's range.
pub open spec fn extend_opt(d: Option<TextRange>, r: TextRange) -> Option<TextRange> {
    match d {
        Some(x) => Some(x.extended(r)),
        None => Some(r),
    }
}

/// Range `[range.start, r.end)`.
pub open spec fn to_end(range: TextRange, r: TextRange) -> TextRange {
    TextRange { start: range.start, end: r.end }
}

/// The last entry's description (and range) extended by continuation `r`.
pub open spec fn extend_last(body: GoogleSectionBodyV, r: TextRange) -> GoogleSectionBodyV {
    match body {
        GoogleSectionBodyV::Args(v) => if v.len() > 0 {
            GoogleSectionBodyV::Args(
                v.update(
                    v.len() - 1,
                    GoogleArg {
                        description: v.last().description.extended(r),
                        range: to_end(v.last().range, r),
                        ..v.last()
                    },
                ),
            )
        } else {
            body
        },
        GoogleSectionBodyV::KeywordArgs(v) => if v.len() > 0 {
            GoogleSectionBodyV::KeywordArgs(
                v.update(
                    v.len() - 1,
                    GoogleArg {
                        description: v.last().description.extended(r),
                        range: to_end(v.last().range, r),
                        ..v.last()
                    },
                ),
            )
        } else {
            body
        },
        GoogleSectionBodyV::OtherParameters(v) => if v.len() > 0 {
            GoogleSectionBodyV::OtherParameters(
                v.update(
                    v.len() - 1,
                    GoogleArg {
                        description: v.last().description.extended(r),
                        range: to_end(v.last().range, r),
                        ..v.last()
                    },
                ),
            )
        } else {
            body
        },
        GoogleSectionBodyV::Receives(v) => if v.len() > 0 {
            GoogleSectionBodyV::Receives(
                v.update(
                    v.len() - 1,
                    GoogleArg {
                        description: v.last().description.extended(r),
                        range: to_end(v.last().range, r),
                        ..v.last()
                    },
                ),
            )
        } else {
            body
        },
        GoogleSectionBodyV::Raises(v) => if v.len() > 0 {
            GoogleSectionBodyV::Raises(
                v.update(
                    v.len() - 1,
                    GoogleException {
                        description: v.last().description.extended(r),
                        range: to_end(v.last().range, r),
                        ..v.last()
                    },
                ),
            )
        } else {
            body
        },
        GoogleSectionBodyV::Warns(v) => if v.len() > 0 {
            GoogleSectionBodyV::Warns(
                v.update(
                    v.len() - 1,
                    GoogleWarning {
                        description: v.last().description.extended(r),
                        range: to_end(v.last().range, r),
                        ..v.last()
                    },
                ),
            )
        } else {
            body
        },
        GoogleSectionBodyV::Attributes(v) => if v.len() > 0 {
            GoogleSectionBodyV::Attributes(
                v.update(
                    v.len() - 1,
                    GoogleAttribute {
                        description: v.last().description.extended(r),
                        range: to_end(v.last().range, r),
                        ..v.last()
                    },
                ),
            )
        } else {
            body
        },
        GoogleSectionBodyV::Methods(v) => if v.len() > 0 {
            GoogleSectionBodyV::Methods(
                v.update(
                    v.len() - 1,
                    GoogleMethod {
                        description: v.last().description.extended(r),
                        range: to_end(v.last().range, r),
                        ..v.last()
                    },
                ),
            )
        } else {
            body
        },
        GoogleSectionBodyV::SeeAlso(v) => if v.len() > 0 {
            GoogleSectionBodyV::SeeAlso(
                v.update(
                    v.len() - 1,
                    GoogleSeeAlsoItemV {
                        description: extend_opt(v.last().description, r),
                        range: to_end(v.last().range, r),
                        ..v.last()
                    },
                ),
            )
        } else {
            body
        },
        _ => body,
    }
}

/// A line of a Returns/Yields section: the first line is `type: description`
/// (or just a description); later lines extend the description.
pub open spec fn returns_line(b: Seq<u8>, ret: GoogleReturns, k: int) -> GoogleReturns {
    let ts = tlo(b, k);
    let te = thi(b, k);
    let tr = mk_range(ts, te);
    if ret.range.lo() == ret.range.hi() {
        match entry_colon(b, ts, te) {
            Some(c) => {
                let d = skip_ws(b, c + 1, te);
                GoogleReturns {
                    range: tr,
                    return_type: Some(mk_range(ts, skip_ws_back(b, ts, c))),
                    colon: Some(mk_range(c, c + 1)),
                    description: if d < te {
                        mk_range(d, te)
                    } else {
                        TextRange::spec_empty()
                    },
                }
            },
            None => GoogleReturns { range: tr, description: tr, ..ret },
        }
    } else {
        GoogleReturns {
            description: ret.description.extended(tr),
            range: to_end(ret.range, tr),
            ..ret
        }
    }
}

/// Whether a body holds entries (Args-like, Raises, Warns, Attributes,
/// Methods, See Also).
pub open spec fn is_entry_body(body: GoogleSectionBodyV) -> bool {
    match body {
        GoogleSectionBodyV::Args(_) | GoogleSectionBodyV::KeywordArgs(_)
        | GoogleSectionBodyV::OtherParameters(_) | GoogleSectionBodyV::Receives(_)
        | GoogleSectionBodyV::Raises(_) | GoogleSectionBodyV::Warns(_)
        | GoogleSectionBodyV::Attributes(_) | GoogleSectionBodyV::Methods(_)
        | GoogleSectionBodyV::SeeAlso(_) => true,
        _ => false,
    }
}

/// Free text extended by the range `r`.
pub open spec fn extend_text(body: GoogleSectionBodyV, r: TextRange) -> GoogleSectionBodyV {
    match body {
        GoogleSectionBodyV::Notes(t) => GoogleSectionBodyV::Notes(t.extended(r)),
        GoogleSectionBodyV::Examples(t) => GoogleSectionBodyV::Examples(t.extended(r)),
        GoogleSectionBodyV::Todo(t) => GoogleSectionBodyV::Todo(t.extended(r)),
        GoogleSectionBodyV::References(t) => GoogleSectionBodyV::References(t.extended(r)),
        GoogleSectionBodyV::Warnings(t) => GoogleSectionBodyV::Warnings(t.extended(r)),
        GoogleSectionBodyV::Attention(t) => GoogleSectionBodyV::Attention(t.extended(r)),
        GoogleSectionBodyV::Caution(t) => GoogleSectionBodyV::Caution(t.extended(r)),
        GoogleSectionBodyV::Danger(t) => GoogleSectionBodyV::Danger(t.extended(r)),
        GoogleSectionBodyV::Error(t) => GoogleSectionBodyV::Error(t.extended(r)),
        GoogleSectionBodyV::Hint(t) => GoogleSectionBodyV::Hint(t.extended(r)),
        GoogleSectionBodyV::Important(t) => GoogleSectionBodyV::Important(t.extended(r)),
        GoogleSectionBodyV::Tip(t) => GoogleSectionBodyV::Tip(t.extended(r)),
        GoogleSectionBodyV::Unknown(t) => GoogleSectionBodyV::Unknown(t.extended(r)),
        _ => body,
    }
}

/// One non-blank, non-header content line `k` of the current section: the
/// new body, the entry indentation, and the next line to read (past the
/// lines that a new entry's bracketed type spans).
pub open spec fn body_line(b: Seq<u8>, body: GoogleSectionBodyV, indent: Option<int>, k: int) -> (
    GoogleSectionBodyV,
    Option<int>,
    int,
) {
    if is_entry_body(body) {
        let cols = indent_cols(b, k);
        match indent {
            Some(base) => if cols > base {
                (extend_last(body, trimmed_range(b, k)), indent, k + 1)
            } else {
                (push_entry(b, body, k), indent, entry_last_line(b, k) + 1)
            },
            None => (push_entry(b, body, k), Some(cols), entry_last_line(b, k) + 1),
        }
    } else {
        match body {
            GoogleSectionBodyV::Returns(r) => (
                GoogleSectionBodyV::Returns(returns_line(b, r, k)),
                indent,
                k + 1,
            ),
            GoogleSectionBodyV::Yields(r) => (
                GoogleSectionBodyV::Yields(returns_line(b, r, k)),
                indent,
                k + 1,
            ),
            _ => (extend_text(body, trimmed_range(b, k)), indent, k + 1),
        }
    }
}

// ===========================================================================
// Document state machine
// ===========================================================================

/// Parser state between lines.
pub struct GoogleStateV {
    pub summary_done: bool,
    pub extended_done: bool,
    pub summary_first: Option<int>,
    pub summary_last: int,
    pub ext_first: Option<int>,
    pub ext_last: int,
    pub summary: Option<TextRange>,
    pub extended_summary: Option<TextRange>,
    pub items: Seq<GoogleDocstringItemV>,
    pub current: Option<(GoogleSectionHeader, GoogleSectionBodyV)>,
    pub entry_indent: Option<int>,
    /// Lines before this one belong to an entry already read.
    pub skip_to: int,
}

/// The state before the first line.
pub open spec fn init_state() -> GoogleStateV {
    GoogleStateV {
        summary_done: false,
        extended_done: false,
        summary_first: None,
        summary_last: 0,
        ext_first: None,
        ext_last: 0,
        summary: None,
        extended_summary: None,
        items: seq![],
        current: None,
        entry_indent: None,
        skip_to: 0,
    }
}

/// Range from the first to the last content line.
pub open spec fn content_range(b: Seq<u8>, first: int, last: int) -> TextRange {
    mk_range(tlo(b, first), thi(b, last))
}

/// Range of a section whose header starts at `hs`, flushed with the cursor at
/// line `k`: up to the end of the last non-blank line before `k`.
pub open spec fn section_range(b: Seq<u8>, hs: int, k: int) -> TextRange {
    let l = last_nonblank_before(b, 0, k);
    if l >= 0 {
        mk_range(hs, thi(b, l))
    } else {
        mk_range(hs, hs)
    }
}

/// `items` with the pending section (if any) appended, flushed at line `k`.
pub open spec fn flush_items(
    b: Seq<u8>,
    items: Seq<GoogleDocstringItemV>,
    current: Option<(GoogleSectionHeader, GoogleSectionBodyV)>,
    k: int,
) -> Seq<GoogleDocstringItemV> {
    match current {
        Some((h, body)) => items.push(
            GoogleDocstringItemV::Section(
                GoogleSectionV { range: section_range(b, h.range.lo(), k), header: h, body },
            ),
        ),
        None => items,
    }
}

/// The items with the pending section (if any) appended, flushed at line `k`.
pub open spec fn flush(b: Seq<u8>, st: GoogleStateV, k: int) -> Seq<GoogleDocstringItemV> {
    flush_items(b, st.items, st.current, k)
}

/// Processing of line `k`.
pub open spec fn google_step(b: Seq<u8>, st: GoogleStateV, k: int) -> GoogleStateV {
    if k < st.skip_to {
        st
    } else if is_blank(b, k) {
        if !st.summary_done && st.summary_first is Some {
            GoogleStateV {
                summary: Some(content_range(b, st.summary_first->0, st.summary_last)),
                summary_done: true,
                ..st
            }
        } else {
            st
        }
    } else {
        match google_header(b, k) {
            Some(h) => {
                let summary = if !st.summary_done && st.summary_first is Some {
                    Some(content_range(b, st.summary_first->0, st.summary_last))
                } else {
                    st.summary
                };
                let extended_summary = if !st.extended_done && st.ext_first is Some {
                    Some(content_range(b, st.ext_first->0, st.ext_last))
                } else {
                    st.extended_summary
                };
                GoogleStateV {
                    summary,
                    extended_summary,
                    summary_done: true,
                    extended_done: true,
                    items: flush(b, st, k),
                    current: Some((h, empty_body(h.kind))),
                    entry_indent: None,
                    ..st
                }
            },
            None => match st.current {
                Some((h, body)) => {
                    let r = body_line(b, body, st.entry_indent, k);
                    GoogleStateV { current: Some((h, r.0)), entry_indent: r.1, skip_to: r.2, ..st }
                },
                None => if !st.summary_done {
                    GoogleStateV {
                        summary_first: if st.summary_first is None {
                            Some(k)
                        } else {
                            st.summary_first
                        },
                        summary_last: k,
                        ..st
                    }
                } else if !st.extended_done {
                    GoogleStateV {
                        ext_first: if st.ext_first is None {
                            Some(k)
                        } else {
                            st.ext_first
                        },
                        ext_last: k,
                        ..st
                    }
                } else {
                    GoogleStateV {
                        items: st.items.push(GoogleDocstringItemV::StrayLine(trimmed_range(b, k))),
                        ..st
                    }
                },
            },
        }
    }
}

/// State after processing lines `[s0, k)`.
pub open spec fn google_run(b: Seq<u8>, s0: int, k: int) -> GoogleStateV
    decreases k - s0,
{
    if k <= s0 {
        init_state()
    } else {
        google_step(b, google_run(b, s0, k - 1), k - 1)
    }
}

/// The parse of the bytes `b` (everything but the source string).
pub open spec fn google_parse(b: Seq<u8>) -> GoogleDocstringV {
    let s0 = first_nonblank_from(b, 0);
    let n = line_count(b);
    if s0 >= n {
        GoogleDocstringV {
            source: seq![],
            range: TextRange::spec_empty(),
            summary: None,
            extended_summary: None,
            items: seq![],
        }
    } else {
        let st = google_run(b, s0, n);
        GoogleDocstringV {
            source: seq![],
            range: mk_range(0, b.len() as int),
            summary: if !st.summary_done && st.summary_first is Some {
                Some(content_range(b, st.summary_first->0, st.summary_last))
            } else {
                st.summary
            },
            extended_summary: if !st.extended_done && st.ext_first is Some {
                Some(content_range(b, st.ext_first->0, st.ext_last))
            } else {
                st.extended_summary
            },
            items: flush(b, st, n),
        }
    }
}


// ===========================================================================
// Executable parsing
// ===========================================================================

/// Whether `[s, e)` contains the byte `x`.
fn contains_byte_exec(b: &[u8], s: usize, e: usize, x: u8) -> (r: bool)
    requires
        s <= e <= b@.len(),
    ensures
        r == contains_byte(b@, s as int, e as int, x),
{
    let mut i = s;
    while i < e
        invariant
            s <= i <= e <= b@.len(),
            forall|j: int| s <= j < i ==> b@[j] != x,
        decreases e - i,
    {
        if b[i] == x {
            return true;
        }
        i = i + 1;
    }
    false
}

/// The section header on line `k`, if it is one.
fn header_on_line(c: &Cursor, k: usize) -> (r: Option<GoogleSectionHeader>)
    requires
        c.wf(),
    ensures
        r == google_header(c.b(), k as int),
{
    let ghost b = c.b();
    let (ts, te) = c.trimmed_bounds(k);
    let bytes = c.bytes;
    let has_colon = ts < te && bytes[te - 1] == 0x3A;
    let ne = if has_colon {
        skip_ws_back_exec(bytes, ts, te - 1)
    } else {
        te
    };
    assert(ne == section_name_end(b, ts as int, te as int).0);
    assert(has_colon == section_name_end(b, ts as int, te as int).1);
    if ne <= ts {
        return None;
    }
    let c0 = bytes[ts];
    if !((0x41 <= c0 && c0 <= 0x5A) || (0x61 <= c0 && c0 <= 0x7A)) {
        return None;
    }
    if has_colon && (contains_byte_exec(bytes, ts, ne, 0x3A) || !chars_alnum_or_ws_exec(
        bytes,
        ts,
        ne,
    )) {
        return None;
    }
    let kind = google_kind_of(bytes, ts, ne, true);
    if !has_colon && matches!(kind, GoogleSectionKind::Unknown) {
        return None;
    }
    let colon = if has_colon {
        Some(c.range(te - 1, te))
    } else {
        None
    };
    Some(GoogleSectionHeader { range: c.range(ts, te), kind, name: c.range(ts, ne), colon })
}

/// The section header on the cursor's current line, if it is one.
pub fn section_header_at(c: &Cursor) -> (r: Option<GoogleSectionHeader>)
    requires
        c.wf(),
    ensures
        r == google_header(c.b(), c.line as int),
{
    header_on_line(c, c.line)
}

/// Position before the trailing commas of `[s, j)`.
pub(crate) fn skip_commas_back_exec(b: &[u8], s: usize, j: usize) -> (r: usize)
    requires
        s <= j <= b@.len(),
    ensures
        r == skip_commas_back(b@, s as int, j as int),
        s <= r <= j,
{
    let mut k = j;
    while k > s && b[k - 1] == 0x2C
        invariant
            s <= k <= j <= b@.len(),
            skip_commas_back(b@, s as int, k as int) == skip_commas_back(b@, s as int, j as int),
        decreases k,
    {
        k = k - 1;
    }
    k
}

/// Strip the `optional` marker from the type text `[tl, th)`: the end of the
/// cleaned type, and the start of the marker if there is one.
pub fn strip_optional_exec(b: &[u8], tl: usize, th: usize) -> (r: (usize, Option<usize>))
    requires
        tl <= th <= b@.len(),
    ensures
        r.0 == strip_optional(b@, tl as int, th as int).0,
        r.1 matches Some(o) ==> strip_optional(b@, tl as int, th as int).1 == Some(o as int),
        r.1 is None ==> strip_optional(b@, tl as int, th as int).1 is None,
        tl <= r.0 <= th,
        r.1 matches Some(o) ==> tl <= o && o + 8 <= th,
{
    let parts = split_comma_parts(b, tl, th);
    let ghost cp = comma_parts(b@, tl as int, th as int);
    let mut opt: Option<usize> = None;
    let mut type_end = tl;
    let mut i: usize = 0;
    let lit = "optional".as_bytes();
    proof {
        reveal_strlit("optional");
        vstd::string::is_ascii_spec_bytes("optional");
        assert(vstd::string::is_ascii("optional"));
    }
    while i < parts.len()
        invariant
            i <= parts@.len() == cp.len(),
            cp == comma_parts(b@, tl as int, th as int),
            tl <= th <= b@.len(),
            lit@ == "optional".spec_bytes(),
            lit@.len() == 8,
            forall|j: int| 0 <= j < parts@.len() ==> (parts@[j].0 as int, parts@[j].1 as int) == #[trigger] cp[j],
            forall|j: int| 0 <= j < parts@.len() ==> tl <= #[trigger] parts@[j].0 <= parts@[j].1 <= th,
            tl <= type_end <= th,
            opt matches Some(o) ==> tl <= o && o + 8 <= th,
            optional_scan(b@, cp, i as int, opt_int(opt), type_end as int) == optional_scan(
                b@,
                cp,
                0,
                None,
                tl as int,
            ),
        decreases parts@.len() - i,
    {
        let (a, z) = parts[i];
        assert(cp[i as int] == (a as int, z as int));
        let (sa, sz) = trim_exec(b, a, z);
        if eq_bytes_exec(b, sa, sz, lit) {
            opt = Some(sa);
        } else if sa < sz {
            type_end = skip_ws_back_exec(b, a, z);
        }
        i = i + 1;
    }
    match opt {
        Some(o) => {
            let j = skip_commas_back_exec(b, tl, type_end);
            (skip_ws_back_exec(b, tl, j), Some(o))
        },
        None => (th, None),
    }
}

/// `Option<usize>` as an `Option<int>`.
pub open spec fn opt_int(o: Option<usize>) -> Option<int> {
    match o {
        Some(x) => Some(x as int),
        None => None,
    }
}

/// Description and colon after a closing bracket, in `[p, te)`.
fn desc_after_close_exec(b: &[u8], p: usize, te: usize) -> (r: (TextRange, Option<TextRange>))
    requires
        p <= te <= b@.len() <= u32::MAX,
    ensures
        r == desc_after_close(b@, p as int, te as int),
        r.0.lo() == r.0.hi() || r.0.hi() == te,
        r.1 matches Some(x) ==> x.hi() <= te,
{
    let q = skip_ws_exec(b, p, te);
    if q < te && b[q] == 0x3A {
        let d = skip_ws_exec(b, q + 1, te);
        let desc = if d < te {
            rng(d, te)
        } else {
            TextRange::empty()
        };
        (desc, Some(rng(q, q + 1)))
    } else {
        (TextRange::empty(), None)
    }
}

/// Entry header with a bracketed type: opener at `p`, closer at `cl`.
fn bracketed_entry_exec(b: &[u8], ts: usize, te: usize, p: usize, cl: usize) -> (r: EntryHeader)
    requires
        ts < p < cl < te <= b@.len() <= u32::MAX,
    ensures
        r == bracketed_entry(b@, ts as int, te as int, p as int, cl as int),
{
    let name = rng(ts, skip_ws_back_exec(b, ts, p));
    let (tl, th) = trim_exec(b, p + 1, cl);
    let (se, so) = strip_optional_exec(b, tl, th);
    let ty = if se > tl {
        Some(rng(tl, se))
    } else {
        None
    };
    let optional = match so {
        Some(o) => Some(rng(o, o + 8)),
        None => None,
    };
    let (desc, colon) = desc_after_close_exec(b, cl + 1, te);
    let range_end: u32 = if !desc.is_empty() {
        desc.end.0
    } else {
        match colon {
            Some(x) => x.end.0,
            None => (cl + 1) as u32,
        }
    };
    EntryHeader {
        range: TextRange { start: TextSize(ts as u32), end: TextSize(range_end) },
        name,
        type_info: Some(
            TypeInfo { open_bracket: rng(p, p + 1), ty, close_bracket: rng(cl, cl + 1), optional },
        ),
        colon,
        first_description: desc,
    }
}

/// Entry header without a bracketed type.
fn plain_entry_exec(b: &[u8], ts: usize, te: usize) -> (r: EntryHeader)
    requires
        ts <= te <= b@.len() <= u32::MAX,
    ensures
        r == plain_entry(b@, ts as int, te as int),
{
    match find_entry_colon(b, ts, te) {
        Some(cl) => {
            let d = skip_ws_exec(b, cl + 1, te);
            EntryHeader {
                range: rng(
                    ts,
                    if d < te {
                        te
                    } else {
                        cl + 1
                    },
                ),
                name: rng(ts, skip_ws_back_exec(b, ts, cl)),
                type_info: None,
                colon: Some(rng(cl, cl + 1)),
                first_description: if d < te {
                    rng(d, te)
                } else {
                    TextRange::empty()
                },
            }
        },
        None => EntryHeader {
            range: rng(ts, te),
            name: rng(ts, te),
            type_info: None,
            colon: None,
            first_description: TextRange::empty(),
        },
    }
}

/// The first line from `j` on, before the next section header, within whose
/// trimmed end the bracket opened at `p` (on an earlier line `k`) is closed.
fn entry_close_line_exec(c: &Cursor, p: usize, k: usize, j0: usize) -> (r: Option<(usize, usize)>)
    requires
        c.wf(),
        k < j0,
        p < thi(c.b(), k as int),
        is_open_bracket(c.b()[p as int]),
    ensures
        r matches Some((j, cl)) ==> entry_close_line(c.b(), p as int, j0 as int) == Some(
            (j as int, cl as int),
        ),
        r is None ==> entry_close_line(c.b(), p as int, j0 as int) is None,
{
    let ghost b = c.b();
    proof {
        lemma_line_bounds(b, k as int);
    }
    let mut j = j0;
    while j < c.total
        invariant
            c.wf(),
            b == c.b(),
            k < j0 <= j,
            p < thi(b, k as int) <= line_hi(b, k as int),
            is_open_bracket(b[p as int]),
            entry_close_line(b, p as int, j as int) == entry_close_line(b, p as int, j0 as int),
        decreases c.total - j,
    {
        if header_on_line(c, j).is_some() {
            return None;
        }
        proof {
            lemma_line_order(b, k as int, j as int);
            lemma_line_bounds(b, j as int);
        }
        let (_, e) = c.trimmed_bounds(j);
        match find_matching_close_in(c.bytes, p, e) {
            Some(cl) => {
                return Some((j, cl));
            },
            None => {},
        }
        j = j + 1;
    }
    None
}

/// The entry header starting on the cursor's current line, and the last line
/// it spans.
fn entry_at(c: &Cursor) -> (r: (EntryHeader, usize))
    requires
        c.wf(),
    ensures
        r.0 == google_entry(c.b(), c.line as int),
        r.1 == entry_last_line(c.b(), c.line as int),
{
    let ghost b = c.b();
    let (ts, te) = c.trimmed_bounds(c.line);
    let bytes = c.bytes;
    proof {
        lemma_line_bounds(b, c.line as int);
        lemma_bracket_after_ws_bounds(b, ts + 1, te as int);
    }
    let bracket = if ts < te {
        find_bracket_after_ws(bytes, ts + 1, te)
    } else {
        None
    };
    match bracket {
        Some(p) => match find_matching_close_in(bytes, p, te) {
            Some(cl) => (bracketed_entry_exec(bytes, ts, te, p, cl), c.line),
            None => match entry_close_line_exec(c, p, c.line, c.line + 1) {
                Some((j, cl)) => {
                    let (_, tj) = c.trimmed_bounds(j);
                    proof {
                        lemma_entry_close_line(b, p as int, c.line + 1);
                        lemma_same_kind_close_bounds(b, p + 1, tj as int, b[p as int], closer_of(b[p as int]), 1);
                    }
                    (bracketed_entry_exec(bytes, ts, tj, p, cl), j)
                },
                None => (plain_entry_exec(bytes, ts, te), c.line),
            },
        },
        None => (plain_entry_exec(bytes, ts, te), c.line),
    }
}

/// `entry_close_line` finds a line at or after its start, before the end,
/// on which the bracket is closed.
pub proof fn lemma_entry_close_line(b: Seq<u8>, p: int, j: int)
    ensures
        entry_close_line(b, p, j) matches Some((j2, c)) ==> j <= j2 < line_count(b)
            && matching_close_in(b, p, thi(b, j2)) == Some(c) && google_header(b, j2) is None,
    decreases line_count(b) - j,
{
    if j < line_count(b) && google_header(b, j) is None && matching_close_in(b, p, thi(b, j)) is None {
        lemma_entry_close_line(b, p, j + 1);
    }
}

/// The entry starting on line `k` ends on `k` or a later line before the
/// end.
pub proof fn lemma_entry_last_line(b: Seq<u8>, k: int)
    requires
        0 <= k < line_count(b),
    ensures
        k <= entry_last_line(b, k) < line_count(b),
{
    lemma_entry_close_line(b, entry_bracket_opener(b, k), k + 1);
}

/// The opening bracket that `entry_bracket` looks at on line `k`.
pub open spec fn entry_bracket_opener(b: Seq<u8>, k: int) -> int {
    match bracket_after_ws(b, tlo(b, k) + 1, thi(b, k)) {
        Some(p) => p,
        None => 0,
    }
}

/// The entry header on the cursor's current line.
pub fn entry_header_at(c: &Cursor) -> (r: EntryHeader)
    requires
        c.wf(),
    ensures
        r == google_entry(c.b(), c.line as int),
{
    entry_at(c).0
}

/// `body` with the entry starting on the cursor's current line appended,
/// and the last line of the entry.
fn push_entry_exec(c: &Cursor, body: GoogleSectionBody) -> (r: (GoogleSectionBody, usize))
    requires
        c.wf(),
    ensures
        r.0@ == push_entry(c.b(), body@, c.line as int),
        r.1 == entry_last_line(c.b(), c.line as int),
{
    let ghost b = c.b();
    let ghost k = c.line as int;
    proof {
        lemma_line_bounds(b, k);
    }
    let (h, last) = entry_at(c);
    let (ts, _) = c.trimmed_bounds(c.line);
    let end = if !h.first_description.is_empty() {
        h.first_description.end
    } else {
        h.range.end
    };
    let range = TextRange { start: TextSize(ts as u32), end };
    let (ty, optional, open_bracket, close_bracket) = match h.type_info {
        Some(t) => (t.ty, t.optional, Some(t.open_bracket), Some(t.close_bracket)),
        None => (None, None, None, None),
    };
    let arg = GoogleArg {
        range,
        name: h.name,
        open_bracket,
        ty,
        close_bracket,
        colon: h.colon,
        description: h.first_description,
        optional,
    };
    match body {
        GoogleSectionBody::Args(mut v) => {
            v.push(arg);
            (GoogleSectionBody::Args(v), last)
        },
        GoogleSectionBody::KeywordArgs(mut v) => {
            v.push(arg);
            (GoogleSectionBody::KeywordArgs(v), last)
        },
        GoogleSectionBody::OtherParameters(mut v) => {
            v.push(arg);
            (GoogleSectionBody::OtherParameters(v), last)
        },
        GoogleSectionBody::Receives(mut v) => {
            v.push(arg);
            (GoogleSectionBody::Receives(v), last)
        },
        GoogleSectionBody::Raises(mut v) => {
            v.push(
                GoogleException {
                    range,
                    ty: h.name,
                    colon: h.colon,
                    description: h.first_description,
                },
            );
            (GoogleSectionBody::Raises(v), last)
        },
        GoogleSectionBody::Warns(mut v) => {
            v.push(
                GoogleWarning {
                    range,
                    warning_type: h.name,
                    colon: h.colon,
                    description: h.first_description,
                },
            );
            (GoogleSectionBody::Warns(v), last)
        },
        GoogleSectionBody::Attributes(mut v) => {
            v.push(
                GoogleAttribute {
                    range,
                    name: h.name,
                    open_bracket,
                    ty,
                    close_bracket,
                    colon: h.colon,
                    description: h.first_description,
                },
            );
            (GoogleSectionBody::Attributes(v), last)
        },
        GoogleSectionBody::Methods(mut v) => {
            v.push(
                GoogleMethod {
                    range,
                    name: h.name,
                    open_bracket,
                    ty,
                    close_bracket,
                    colon: h.colon,
                    description: h.first_description,
                },
            );
            (GoogleSectionBody::Methods(v), last)
        },
        GoogleSectionBody::SeeAlso(mut v) => {
            let ghost old_v = v@;
            proof {
                assert(h.name.lo() <= h.name.hi() <= b.len()) by {
                    lemma_entry_bounds(b, k);
                }
            }
            let names = split_names_exec(
                c.bytes,
                h.name.start.0 as usize,
                h.name.end.0 as usize,
            );
            let item = GoogleSeeAlsoItem {
                range,
                names,
                colon: h.colon,
                description: if h.first_description.is_empty() {
                    None
                } else {
                    Some(h.first_description)
                },
            };
            v.push(item);
            assert(v@.map_values(|i: GoogleSeeAlsoItem| i@) =~= old_v.map_values(
                |i: GoogleSeeAlsoItem| i@,
            ).push(item@));
            (GoogleSectionBody::SeeAlso(v), last)
        },
        _ => (body, last),
    }
}

/// The name of the entry header on line `k` lies within the line's trimmed text.
pub proof fn lemma_entry_bounds(b: Seq<u8>, k: int)
    requires
        b.len() <= u32::MAX,
    ensures
        tlo(b, k) <= google_entry(b, k).name.lo() <= google_entry(b, k).name.hi() <= thi(b, k),
{
    lemma_line_bounds(b, k);
    let ts = tlo(b, k);
    let te = thi(b, k);
    lemma_bracket_after_ws_bounds(b, ts + 1, te);
    match bracket_after_ws(b, ts + 1, te) {
        Some(p) => {
            lemma_skip_ws_back_bounds(b, ts, p);
            lemma_same_kind_close_bounds(b, p + 1, te, b[p], closer_of(b[p]), 1);
            lemma_entry_colon_bounds(b, ts, te, 0);
            match entry_colon(b, ts, te) {
                Some(cl) => lemma_skip_ws_back_bounds(b, ts, cl),
                None => {},
            }
        },
        None => {
            lemma_entry_colon_bounds(b, ts, te, 0);
            match entry_colon(b, ts, te) {
                Some(cl) => lemma_skip_ws_back_bounds(b, ts, cl),
                None => {},
            }
        },
    }
}

/// `body` with its last entry's description (and range) extended by the
/// continuation range `r`.
fn extend_last_exec(body: GoogleSectionBody, r: TextRange) -> (res: GoogleSectionBody)
    ensures
        res@ == extend_last(body@, r),
{
    match body {
        GoogleSectionBody::Args(mut v) => {
            let n = v.len();
            if n > 0 {
                let last = v[n - 1];
                let mut d = last.description;
                d.extend(r);
                v.set(n - 1, GoogleArg { description: d, range: TextRange { start: last.range.start, end: r.end }, ..last });
            }
            GoogleSectionBody::Args(v)
        },
        GoogleSectionBody::KeywordArgs(mut v) => {
            let n = v.len();
            if n > 0 {
                let last = v[n - 1];
                let mut d = last.description;
                d.extend(r);
                v.set(n - 1, GoogleArg { description: d, range: TextRange { start: last.range.start, end: r.end }, ..last });
            }
            GoogleSectionBody::KeywordArgs(v)
        },
        GoogleSectionBody::OtherParameters(mut v) => {
            let n = v.len();
            if n > 0 {
                let last = v[n - 1];
                let mut d = last.description;
                d.extend(r);
                v.set(n - 1, GoogleArg { description: d, range: TextRange { start: last.range.start, end: r.end }, ..last });
            }
            GoogleSectionBody::OtherParameters(v)
        },
        GoogleSectionBody::Receives(mut v) => {
            let n = v.len();
            if n > 0 {
                let last = v[n - 1];
                let mut d = last.description;
                d.extend(r);
                v.set(n - 1, GoogleArg { description: d, range: TextRange { start: last.range.start, end: r.end }, ..last });
            }
            GoogleSectionBody::Receives(v)
        },
        GoogleSectionBody::Raises(mut v) => {
            let n = v.len();
            if n > 0 {
                let last = v[n - 1];
                let mut d = last.description;
                d.extend(r);
                v.set(n - 1, GoogleException { description: d, range: TextRange { start: last.range.start, end: r.end }, ..last });
            }
            GoogleSectionBody::Raises(v)
        },
        GoogleSectionBody::Warns(mut v) => {
            let n = v.len();
            if n > 0 {
                let last = v[n - 1];
                let mut d = last.description;
                d.extend(r);
                v.set(n - 1, GoogleWarning { description: d, range: TextRange { start: last.range.start, end: r.end }, ..last });
            }
            GoogleSectionBody::Warns(v)
        },
        GoogleSectionBody::Attributes(mut v) => {
            let n = v.len();
            if n > 0 {
                let last = v[n - 1];
                let mut d = last.description;
                d.extend(r);
                v.set(n - 1, GoogleAttribute { description: d, range: TextRange { start: last.range.start, end: r.end }, ..last });
            }
            GoogleSectionBody::Attributes(v)
        },
        GoogleSectionBody::Methods(mut v) => {
            let n = v.len();
            if n > 0 {
                let last = v[n - 1];
                let mut d = last.description;
                d.extend(r);
                v.set(n - 1, GoogleMethod { description: d, range: TextRange { start: last.range.start, end: r.end }, ..last });
            }
            GoogleSectionBody::Methods(v)
        },
        GoogleSectionBody::SeeAlso(mut v) => {
            let ghost old_v = v@;
            let n = v.len();
            if n > 0 {
                let mut last = v.pop().unwrap();
                let ghost last0 = last@;
                last.description = match last.description {
                    Some(x) => {
                        let mut d = x;
                        d.extend(r);
                        Some(d)
                    },
                    None => Some(r),
                };
                last.range = TextRange { start: last.range.start, end: r.end };
                v.push(last);
                assert(v@.map_values(|i: GoogleSeeAlsoItem| i@) =~= old_v.map_values(
                    |i: GoogleSeeAlsoItem| i@,
                ).update(n - 1, GoogleSeeAlsoItemV {
                    description: extend_opt(last0.description, r),
                    range: to_end(last0.range, r),
                    ..last0
                }));
            }
            GoogleSectionBody::SeeAlso(v)
        },
        _ => body,
    }
}

/// A line of a Returns/Yields section on the cursor's current line.
fn returns_line_exec(c: &Cursor, ret: GoogleReturns) -> (r: GoogleReturns)
    requires
        c.wf(),
    ensures
        r == returns_line(c.b(), ret, c.line as int),
{
    let (ts, te) = c.trimmed_bounds(c.line);
    let tr = rng(ts, te);
    if ret.range.is_empty() {
        match find_entry_colon(c.bytes, ts, te) {
            Some(cl) => {
                let d = skip_ws_exec(c.bytes, cl + 1, te);
                GoogleReturns {
                    range: tr,
                    return_type: Some(rng(ts, skip_ws_back_exec(c.bytes, ts, cl))),
                    colon: Some(rng(cl, cl + 1)),
                    description: if d < te {
                        rng(d, te)
                    } else {
                        TextRange::empty()
                    },
                }
            },
            None => GoogleReturns { range: tr, description: tr, ..ret },
        }
    } else {
        let mut d = ret.description;
        d.extend(tr);
        GoogleReturns {
            description: d,
            range: TextRange { start: ret.range.start, end: tr.end },
            ..ret
        }
    }
}

/// Free text extended by the range `r`.
fn extend_text_exec(body: GoogleSectionBody, r: TextRange) -> (res: GoogleSectionBody)
    ensures
        res@ == extend_text(body@, r),
{
    match body {
        GoogleSectionBody::Notes(t) => {
            let mut t = t;
            t.extend(r);
            GoogleSectionBody::Notes(t)
        },
        GoogleSectionBody::Examples(t) => {
            let mut t = t;
            t.extend(r);
            GoogleSectionBody::Examples(t)
        },
        GoogleSectionBody::Todo(t) => {
            let mut t = t;
            t.extend(r);
            GoogleSectionBody::Todo(t)
        },
        GoogleSectionBody::References(t) => {
            let mut t = t;
            t.extend(r);
            GoogleSectionBody::References(t)
        },
        GoogleSectionBody::Warnings(t) => {
            let mut t = t;
            t.extend(r);
            GoogleSectionBody::Warnings(t)
        },
        GoogleSectionBody::Attention(t) => {
            let mut t = t;
            t.extend(r);
            GoogleSectionBody::Attention(t)
        },
        GoogleSectionBody::Caution(t) => {
            let mut t = t;
            t.extend(r);
            GoogleSectionBody::Caution(t)
        },
        GoogleSectionBody::Danger(t) => {
            let mut t = t;
            t.extend(r);
            GoogleSectionBody::Danger(t)
        },
        GoogleSectionBody::Error(t) => {
            let mut t = t;
            t.extend(r);
            GoogleSectionBody::Error(t)
        },
        GoogleSectionBody::Hint(t) => {
            let mut t = t;
            t.extend(r);
            GoogleSectionBody::Hint(t)
        },
        GoogleSectionBody::Important(t) => {
            let mut t = t;
            t.extend(r);
            GoogleSectionBody::Important(t)
        },
        GoogleSectionBody::Tip(t) => {
            let mut t = t;
            t.extend(r);
            GoogleSectionBody::Tip(t)
        },
        GoogleSectionBody::Unknown(t) => {
            let mut t = t;
            t.extend(r);
            GoogleSectionBody::Unknown(t)
        },
        _ => body,
    }
}

/// `Option<u64>` as an `Option<int>`.
pub open spec fn opt_cols(o: Option<u64>) -> Option<int> {
    match o {
        Some(x) => Some(x as int),
        None => None,
    }
}

/// One non-blank, non-header content line (the cursor's current line) of
/// the current section: the new body, the entry indentation and the next
/// line to read.
fn body_line_exec(c: &Cursor, body: GoogleSectionBody, indent: Option<u64>) -> (r: (
    GoogleSectionBody,
    Option<u64>,
    usize,
))
    requires
        c.wf(),
        c.line < c.total,
    ensures
        r.0@ == body_line(c.b(), body@, opt_cols(indent), c.line as int).0,
        opt_cols(r.1) == body_line(c.b(), body@, opt_cols(indent), c.line as int).1,
        r.2 == body_line(c.b(), body@, opt_cols(indent), c.line as int).2,
{
    let is_entries = match &body {
        GoogleSectionBody::Args(_) | GoogleSectionBody::KeywordArgs(_)
        | GoogleSectionBody::OtherParameters(_) | GoogleSectionBody::Receives(_)
        | GoogleSectionBody::Raises(_) | GoogleSectionBody::Warns(_)
        | GoogleSectionBody::Attributes(_) | GoogleSectionBody::Methods(_)
        | GoogleSectionBody::SeeAlso(_) => true,
        _ => false,
    };
    assert(is_entries == is_entry_body(body@));
    if is_entries {
        let cols = c.current_indent_columns();
        match indent {
            Some(base) => if cols > base {
                (extend_last_exec(body, c.current_trimmed_range()), indent, c.line + 1)
            } else {
                let (nb, last) = push_entry_exec(c, body);
                proof {
                    lemma_entry_last_line(c.b(), c.line as int);
                }
                (nb, indent, last + 1)
            },
            None => {
                let (nb, last) = push_entry_exec(c, body);
                proof {
                    lemma_entry_last_line(c.b(), c.line as int);
                }
                (nb, Some(cols), last + 1)
            },
        }
    } else {
        match body {
            GoogleSectionBody::Returns(r) => (
                GoogleSectionBody::Returns(returns_line_exec(c, r)),
                indent,
                c.line + 1,
            ),
            GoogleSectionBody::Yields(r) => (
                GoogleSectionBody::Yields(returns_line_exec(c, r)),
                indent,
                c.line + 1,
            ),
            _ => (extend_text_exec(body, c.current_trimmed_range()), indent, c.line + 1),
        }
    }
}

/// Executable parser state between lines.
struct GoogleState {
    summary_done: bool,
    extended_done: bool,
    summary_first: Option<usize>,
    summary_last: usize,
    ext_first: Option<usize>,
    ext_last: usize,
    summary: Option<TextRange>,
    extended_summary: Option<TextRange>,
    items: Vec<GoogleDocstringItem>,
    current: Option<(GoogleSectionHeader, GoogleSectionBody)>,
    entry_indent: Option<u64>,
    skip_to: usize,
}

/// The view of a pending section.
pub open spec fn current_view(cur: Option<(GoogleSectionHeader, GoogleSectionBody)>) -> Option<
    (GoogleSectionHeader, GoogleSectionBodyV),
> {
    match cur {
        Some((h, body)) => Some((h, body@)),
        None => None,
    }
}

impl View for GoogleState {
    type V = GoogleStateV;

    closed spec fn view(&self) -> GoogleStateV {
        GoogleStateV {
            summary_done: self.summary_done,
            extended_done: self.extended_done,
            summary_first: opt_int(self.summary_first),
            summary_last: self.summary_last as int,
            ext_first: opt_int(self.ext_first),
            ext_last: self.ext_last as int,
            summary: self.summary,
            extended_summary: self.extended_summary,
            items: self.items@.map_values(|i: GoogleDocstringItem| i@),
            current: current_view(self.current),
            entry_indent: opt_cols(self.entry_indent),
            skip_to: self.skip_to as int,
        }
    }
}

/// Range from the first content line to the last.
fn content_range_exec(c: &Cursor, first: usize, last: usize) -> (r: TextRange)
    requires
        c.wf(),
    ensures
        r == content_range(c.b(), first as int, last as int),
{
    let (a, _) = c.trimmed_bounds(first);
    let (_, z) = c.trimmed_bounds(last);
    TextRange { start: TextSize(a as u32), end: TextSize(z as u32) }
}

/// `items` with the pending section (if any) appended, at the cursor's line.
fn flush_exec(
    c: &Cursor,
    items: Vec<GoogleDocstringItem>,
    current: Option<(GoogleSectionHeader, GoogleSectionBody)>,
) -> (r: Vec<GoogleDocstringItem>)
    requires
        c.wf(),
    ensures
        r@.map_values(|i: GoogleDocstringItem| i@) == flush_items(
            c.b(),
            items@.map_values(|i: GoogleDocstringItem| i@),
            current_view(current),
            c.line as int,
        ),
{
    let mut items = items;
    match current {
        Some((h, body)) => {
            let ghost old_items = items@;
            let range = c.span_back_from_cursor(h.range.start.0 as usize, 0);
            let sec = GoogleSection { range, header: h, body };
            let item = GoogleDocstringItem::Section(sec);
            items.push(item);
            assert(items@.map_values(|i: GoogleDocstringItem| i@) =~= old_items.map_values(
                |i: GoogleDocstringItem| i@,
            ).push(item@));
            items
        },
        None => items,
    }
}

/// Processing of the cursor's current line.
fn google_step_exec(c: &Cursor, st: GoogleState) -> (r: GoogleState)
    requires
        c.wf(),
        c.line < c.total,
    ensures
        r@ == google_step(c.b(), st@, c.line as int),
{
    if c.line < st.skip_to {
        return st;
    }
    let GoogleState {
        summary_done,
        extended_done,
        summary_first,
        summary_last,
        ext_first,
        ext_last,
        summary,
        extended_summary,
        items,
        current,
        entry_indent,
        skip_to,
    } = st;
    if c.current_is_blank() {
        if !summary_done && summary_first.is_some() {
            let s = content_range_exec(c, summary_first.unwrap(), summary_last);
            return GoogleState {
                summary_done: true,
                extended_done,
                summary_first,
                summary_last,
                ext_first,
                ext_last,
                summary: Some(s),
                extended_summary,
                items,
                current,
                entry_indent,
                skip_to,
            };
        }
        return GoogleState {
            summary_done,
            extended_done,
            summary_first,
            summary_last,
            ext_first,
            ext_last,
            summary,
            extended_summary,
            items,
            current,
            entry_indent,
            skip_to,
        };
    }
    match section_header_at(c) {
        Some(h) => {
            let new_summary = if !summary_done && summary_first.is_some() {
                Some(content_range_exec(c, summary_first.unwrap(), summary_last))
            } else {
                summary
            };
            let new_ext = if !extended_done && ext_first.is_some() {
                Some(content_range_exec(c, ext_first.unwrap(), ext_last))
            } else {
                extended_summary
            };
            let items = flush_exec(c, items, current);
            GoogleState {
                summary_done: true,
                extended_done: true,
                summary_first,
                summary_last,
                ext_first,
                ext_last,
                summary: new_summary,
                extended_summary: new_ext,
                items,
                current: Some((h, GoogleSectionBody::new(h.kind))),
                entry_indent: None,
                skip_to,
            }
        },
        None => match current {
            Some((h, body)) => {
                let (nb, ni, next) = body_line_exec(c, body, entry_indent);
                GoogleState {
                    summary_done,
                    extended_done,
                    summary_first,
                    summary_last,
                    ext_first,
                    ext_last,
                    summary,
                    extended_summary,
                    items,
                    current: Some((h, nb)),
                    entry_indent: ni,
                    skip_to: next,
                }
            },
            None => {
                if !summary_done {
                    GoogleState {
                        summary_done,
                        extended_done,
                        summary_first: if summary_first.is_none() {
                            Some(c.line)
                        } else {
                            summary_first
                        },
                        summary_last: c.line,
                        ext_first,
                        ext_last,
                        summary,
                        extended_summary,
                        items,
                        current: None,
                        entry_indent,
                        skip_to,
                    }
                } else if !extended_done {
                    GoogleState {
                        summary_done,
                        extended_done,
                        summary_first,
                        summary_last,
                        ext_first: if ext_first.is_none() {
                            Some(c.line)
                        } else {
                            ext_first
                        },
                        ext_last: c.line,
                        summary,
                        extended_summary,
                        items,
                        current: None,
                        entry_indent,
                        skip_to,
                    }
                } else {
                    let mut items = items;
                    let ghost old_items = items@;
                    let item = GoogleDocstringItem::StrayLine(c.current_trimmed_range());
                    items.push(item);
                    assert(items@.map_values(|i: GoogleDocstringItem| i@) =~= old_items.map_values(
                        |i: GoogleDocstringItem| i@,
                    ).push(item@));
                    GoogleState {
                        summary_done,
                        extended_done,
                        summary_first,
                        summary_last,
                        ext_first,
                        ext_last,
                        summary,
                        extended_summary,
                        items,
                        current: None,
                        entry_indent,
                        skip_to,
                    }
                }
            },
        },
    }
}

/// `d` is the Google-style parse of `input`.
pub open spec fn is_google_parse(input: &str, d: GoogleDocstringV) -> bool {
    let g = google_parse(input.spec_bytes());
    &&& d.source == input@
    &&& d.range == g.range
    &&& d.summary == g.summary
    &&& d.extended_summary == g.extended_summary
    &&& d.items == g.items
}

/// Parse a Google-style docstring.
///
/// Every offset in the result is a byte offset into `input`.  The summary is
/// the first paragraph, the extended summary the text up to the first section
/// header; then come the sections and the stray lines outside any section, in
/// document order.
pub fn parse_google(input: &str) -> (r: GoogleDocstring)
    requires
        input.spec_bytes().len() <= u32::MAX,
    ensures
        is_google_parse(input, r@),
{
    let mut c = Cursor::new(input);
    let mut doc = GoogleDocstring::new(input);
    c.skip_blank_lines();
    if c.is_eof() {
        assert(doc@.items =~= google_parse(input.spec_bytes()).items);
        return doc;
    }
    let ghost b = c.b();
    let ghost s0 = c.line as int;
    let mut st = GoogleState {
        summary_done: false,
        extended_done: false,
        summary_first: None,
        summary_last: 0,
        ext_first: None,
        ext_last: 0,
        summary: None,
        extended_summary: None,
        items: Vec::new(),
        current: None,
        entry_indent: None,
        skip_to: 0,
    };
    assert(st@.items =~= seq![]);
    assert(st@ == google_run(b, s0, s0));
    while !c.is_eof()
        invariant
            c.wf(),
            c.b() == b,
            b == input.spec_bytes(),
            s0 <= c.line <= c.total,
            c.total == line_count(b),
            st@ == google_run(b, s0, c.line as int),
        decreases c.total - c.line,
    {
        st = google_step_exec(&c, st);
        c.advance();
    }
    let GoogleState {
        summary_done,
        extended_done,
        summary_first,
        summary_last,
        ext_first,
        ext_last,
        summary,
        extended_summary,
        items,
        current,
        entry_indent: _,
        skip_to: _,
    } = st;
    doc.items = flush_exec(&c, items, current);
    doc.summary = if !summary_done && summary_first.is_some() {
        Some(content_range_exec(&c, summary_first.unwrap(), summary_last))
    } else {
        summary
    };
    doc.extended_summary = if !extended_done && ext_first.is_some() {
        Some(content_range_exec(&c, ext_first.unwrap(), ext_last))
    } else {
        extended_summary
    };
    doc.range = c.full_range();
    doc
}

} // verus!
