//! Style detection and parsing with automatic style detection.
use vstd::prelude::*;
use vstd::string::StringSliceAdditionalSpecFns;
use crate::ast::Style;
use crate::cursor::{Cursor, tlo, thi, is_blank, line_count, lemma_line_bounds};
use crate::error::ParseResult;
use crate::lexical::{starts_with, starts_with_exec, eq_bytes, eq_bytes_exec, lemma_eq_bytes};
use crate::styles::google::parser::{parse_google, is_google_parse};
use crate::styles::numpy::parser::{parse_numpy, is_numpy_parse, all_dashes, all_dashes_exec};
use crate::styles::sphinx::parser::{parse_sphinx, is_sphinx_parse};
use crate::types::{Docstring, docstring_style};

verus! {

/// Line `k` (trimmed) starts with a Sphinx field marker.
pub open spec fn sphinx_marker_line(b: Seq<u8>, k: int) -> bool {
    let s = tlo(b, k);
    let e = thi(b, k);
    starts_with(b, s, e, ":param ".spec_bytes())
    || starts_with(b, s, e, ":type ".spec_bytes())
    || starts_with(b, s, e, ":returns:".spec_bytes())
    || starts_with(b, s, e, ":return:".spec_bytes())
    || starts_with(b, s, e, ":rtype:".spec_bytes())
    || starts_with(b, s, e, ":raises ".spec_bytes())
    || starts_with(b, s, e, ":raise ".spec_bytes())
    || starts_with(b, s, e, ":var ".spec_bytes())
    || starts_with(b, s, e, ":ivar ".spec_bytes())
    || starts_with(b, s, e, ":cvar ".spec_bytes())
}

/// Some line starts with a Sphinx field marker.
pub open spec fn has_sphinx_markers(b: Seq<u8>) -> bool {
    exists|k: int| 0 <= k < line_count(b) && #[trigger] sphinx_marker_line(b, k)
}

/// Line `k` is non-blank and the next line is a run of at least three dashes.
pub open spec fn underlined_line(b: Seq<u8>, k: int) -> bool {
    &&& !is_blank(b, k)
    &&& thi(b, k + 1) - tlo(b, k + 1) >= 3
    &&& all_dashes(b, tlo(b, k + 1), thi(b, k + 1))
}

/// Some line is underlined by dashes.
pub open spec fn has_numpy_sections(b: Seq<u8>) -> bool {
    exists|k: int| 0 <= k && k + 1 < line_count(b) && #[trigger] underlined_line(b, k)
}

/// Line `k` (trimmed) is one of the common Google section headers.
pub open spec fn google_header_line(b: Seq<u8>, k: int) -> bool {
    let s = tlo(b, k);
    let e = thi(b, k);
    eq_bytes(b, s, e, "Args:".spec_bytes())
    || eq_bytes(b, s, e, "Arguments:".spec_bytes())
    || eq_bytes(b, s, e, "Returns:".spec_bytes())
    || eq_bytes(b, s, e, "Return:".spec_bytes())
    || eq_bytes(b, s, e, "Raises:".spec_bytes())
    || eq_bytes(b, s, e, "Yields:".spec_bytes())
    || eq_bytes(b, s, e, "Yield:".spec_bytes())
    || eq_bytes(b, s, e, "Example:".spec_bytes())
    || eq_bytes(b, s, e, "Examples:".spec_bytes())
    || eq_bytes(b, s, e, "Note:".spec_bytes())
    || eq_bytes(b, s, e, "Notes:".spec_bytes())
    || eq_bytes(b, s, e, "Attributes:".spec_bytes())
    || eq_bytes(b, s, e, "Todo:".spec_bytes())
    || eq_bytes(b, s, e, "References:".spec_bytes())
    || eq_bytes(b, s, e, "Warnings:".spec_bytes())
}

/// Some line is one of the common Google section headers.
pub open spec fn has_google_sections(b: Seq<u8>) -> bool {
    exists|k: int| 0 <= k < line_count(b) && #[trigger] google_header_line(b, k)
}

/// The detected style of the bytes `b`: Sphinx when a field marker occurs,
/// else NumPy when a line is underlined by dashes, else Google.
pub open spec fn detected_style(b: Seq<u8>) -> Style {
    if has_sphinx_markers(b) {
        Style::Sphinx
    } else if has_numpy_sections(b) {
        Style::NumPy
    } else {
        Style::Google
    }
}

fn sphinx_markers_exec(c: &Cursor) -> (r: bool)
    requires
        c.lines_wf(),
    ensures
        r == has_sphinx_markers(c.b()),
{
    let ghost b = c.b();
    let bytes = c.bytes;
    let mut k: usize = 0;
    while k < c.total
        invariant
            c.lines_wf(),
            b == c.b(),
            bytes@ == b,
            k <= c.total,
            forall|j: int| 0 <= j < k ==> !#[trigger] sphinx_marker_line(b, j),
        decreases c.total - k,
    {
        let (s, e) = c.trimmed_bounds(k);
        if starts_with_exec(bytes, s, e, ":param ".as_bytes()) || starts_with_exec(bytes, s, e, ":type ".as_bytes()) || starts_with_exec(bytes, s, e, ":returns:".as_bytes()) || starts_with_exec(bytes, s, e, ":return:".as_bytes()) || starts_with_exec(bytes, s, e, ":rtype:".as_bytes()) || starts_with_exec(bytes, s, e, ":raises ".as_bytes()) || starts_with_exec(bytes, s, e, ":raise ".as_bytes()) || starts_with_exec(bytes, s, e, ":var ".as_bytes()) || starts_with_exec(bytes, s, e, ":ivar ".as_bytes()) || starts_with_exec(bytes, s, e, ":cvar ".as_bytes()) {
            assert(sphinx_marker_line(b, k as int));
            return true;
        }
        k = k + 1;
    }
    false
}

pub(crate) fn numpy_sections_exec(c: &Cursor) -> (r: bool)
    requires
        c.lines_wf(),
    ensures
        r == has_numpy_sections(c.b()),
{
    let ghost b = c.b();
    let bytes = c.bytes;
    let mut k: usize = 0;
    while k < c.total && k + 1 < c.total
        invariant
            c.lines_wf(),
            b == c.b(),
            bytes@ == b,
            k <= c.total,
            forall|j: int| 0 <= j < k ==> !#[trigger] underlined_line(b, j),
        decreases c.total - k,
    {
        let (s, e) = c.trimmed_bounds(k + 1);
        if !c.is_blank_line(k) && e - s >= 3 && all_dashes_exec(bytes, s, e) {
            assert(underlined_line(b, k as int));
            return true;
        }
        k = k + 1;
    }
    false
}

fn google_sections_exec(c: &Cursor) -> (r: bool)
    requires
        c.lines_wf(),
    ensures
        r == has_google_sections(c.b()),
{
    let ghost b = c.b();
    let bytes = c.bytes;
    let mut k: usize = 0;
    while k < c.total
        invariant
            c.lines_wf(),
            b == c.b(),
            bytes@ == b,
            k <= c.total,
            forall|j: int| 0 <= j < k ==> !#[trigger] google_header_line(b, j),
        decreases c.total - k,
    {
        let (s, e) = c.trimmed_bounds(k);
        if eq_bytes_exec(bytes, s, e, "Args:".as_bytes()) || eq_bytes_exec(bytes, s, e, "Arguments:".as_bytes()) || eq_bytes_exec(bytes, s, e, "Returns:".as_bytes()) || eq_bytes_exec(bytes, s, e, "Return:".as_bytes()) || eq_bytes_exec(bytes, s, e, "Raises:".as_bytes()) || eq_bytes_exec(bytes, s, e, "Yields:".as_bytes()) || eq_bytes_exec(bytes, s, e, "Yield:".as_bytes()) || eq_bytes_exec(bytes, s, e, "Example:".as_bytes()) || eq_bytes_exec(bytes, s, e, "Examples:".as_bytes()) || eq_bytes_exec(bytes, s, e, "Note:".as_bytes()) || eq_bytes_exec(bytes, s, e, "Notes:".as_bytes()) || eq_bytes_exec(bytes, s, e, "Attributes:".as_bytes()) || eq_bytes_exec(bytes, s, e, "Todo:".as_bytes()) || eq_bytes_exec(bytes, s, e, "References:".as_bytes()) || eq_bytes_exec(bytes, s, e, "Warnings:".as_bytes()) {
            assert(google_header_line(b, k as int));
            return true;
        }
        k = k + 1;
    }
    false
}

/// Detect the docstring style from its content: Sphinx when a line starts
/// with a field marker (`:param `, `:type `, `:returns:`, ...), NumPy when a
/// non-blank line is followed by a line of at least three dashes, and Google
/// otherwise (whether or not a common Google header such as `Args:` occurs).
pub fn detect_style(input: &str) -> (r: Style)
    ensures
        r == detected_style(input.spec_bytes()),
{
    let c = Cursor::new(input);
    if sphinx_markers_exec(&c) {
        return Style::Sphinx;
    }
    if numpy_sections_exec(&c) {
        return Style::NumPy;
    }
    if google_sections_exec(&c) {
        return Style::Google;
    }
    Style::Google
}

/// The Sphinx field markers: `:param `, `:type `, `:returns:`, `:return:`,
/// `:rtype:`, `:raises `, `:raise `, `:var `, `:ivar `, `:cvar `.
pub open spec fn sphinx_field_markers() -> Seq<Seq<u8>> {
    seq![
        ":param ".spec_bytes(),
        ":type ".spec_bytes(),
        ":returns:".spec_bytes(),
        ":return:".spec_bytes(),
        ":rtype:".spec_bytes(),
        ":raises ".spec_bytes(),
        ":raise ".spec_bytes(),
        ":var ".spec_bytes(),
        ":ivar ".spec_bytes(),
        ":cvar ".spec_bytes(),
    ]
}

/// The text of line `k` of `b`, without surrounding whitespace, begins with
/// the bytes `m`.
pub open spec fn trimmed_line_begins_with(b: Seq<u8>, k: int, m: Seq<u8>) -> bool {
    &&& m.len() <= thi(b, k) - tlo(b, k)
    &&& b.subrange(tlo(b, k), tlo(b, k) + m.len()) == m
}

/// Law: `detect_style` answers Sphinx exactly when some line of the input,
/// trimmed, begins with one of the Sphinx field markers.
pub proof fn law_detect_style_sphinx(input: &str)
    ensures
        (detected_style(input.spec_bytes()) == Style::Sphinx) <==> exists|k: int, i: int|
            0 <= k < line_count(input.spec_bytes()) && 0 <= i < sphinx_field_markers().len()
                && #[trigger] trimmed_line_begins_with(
                input.spec_bytes(),
                k,
                sphinx_field_markers()[i],
            ),
{
    let b = input.spec_bytes();
    let ms = sphinx_field_markers();
    assert forall|k: int, i: int|
        0 <= k < line_count(b) && 0 <= i < ms.len() implies (#[trigger] starts_with(
        b,
        tlo(b, k),
        thi(b, k),
        ms[i],
    ) <==> #[trigger] trimmed_line_begins_with(b, k, ms[i])) by {
        lemma_line_bounds(b, k);
        if ms[i].len() <= thi(b, k) - tlo(b, k) {
            lemma_eq_bytes(b, tlo(b, k), tlo(b, k) + ms[i].len(), ms[i]);
        }
    }
    assert forall|k: int| 0 <= k < line_count(b) implies (#[trigger] sphinx_marker_line(b, k) <==> exists|i: int|
        0 <= i < ms.len() && starts_with(b, tlo(b, k), thi(b, k), #[trigger] ms[i])) by {
        if sphinx_marker_line(b, k) {
            if starts_with(b, tlo(b, k), thi(b, k), ms[0]) {
            } else if starts_with(b, tlo(b, k), thi(b, k), ms[1]) {
            } else if starts_with(b, tlo(b, k), thi(b, k), ms[2]) {
            } else if starts_with(b, tlo(b, k), thi(b, k), ms[3]) {
            } else if starts_with(b, tlo(b, k), thi(b, k), ms[4]) {
            } else if starts_with(b, tlo(b, k), thi(b, k), ms[5]) {
            } else if starts_with(b, tlo(b, k), thi(b, k), ms[6]) {
            } else if starts_with(b, tlo(b, k), thi(b, k), ms[7]) {
            } else if starts_with(b, tlo(b, k), thi(b, k), ms[8]) {
            } else {
                assert(starts_with(b, tlo(b, k), thi(b, k), ms[9]));
            }
        }
    }
    if detected_style(b) == Style::Sphinx {
        let k = choose|k: int| 0 <= k < line_count(b) && #[trigger] sphinx_marker_line(b, k);
        let i = choose|i: int| 0 <= i < ms.len() && starts_with(b, tlo(b, k), thi(b, k), #[trigger] ms[i]);
        lemma_line_bounds(b, k);
        assert(trimmed_line_begins_with(b, k, ms[i]));
    }
    if exists|k: int, i: int|
        0 <= k < line_count(b) && 0 <= i < ms.len() && #[trigger] trimmed_line_begins_with(b, k, ms[i]) {
        let (k, i) = choose|k: int, i: int|
            0 <= k < line_count(b) && 0 <= i < ms.len() && #[trigger] trimmed_line_begins_with(b, k, ms[i]);
        assert(starts_with(b, tlo(b, k), thi(b, k), ms[i]));
        assert(sphinx_marker_line(b, k));
    }
}

/// Law: `detect_style` answers NumPy exactly when no line begins with a
/// Sphinx field marker and some non-blank line is followed by a line whose
/// trimmed text is at least three `-` and nothing else; it answers Google
/// in every other case.
pub proof fn law_detect_style_numpy(input: &str)
    ensures
        ({
            let b = input.spec_bytes();
            let sphinx = exists|k: int, i: int|
                0 <= k < line_count(b) && 0 <= i < sphinx_field_markers().len()
                    && #[trigger] trimmed_line_begins_with(b, k, sphinx_field_markers()[i]);
            let underlined = exists|k: int|
                0 <= k && k + 1 < line_count(b) && tlo(b, k) < thi(b, k) && #[trigger] thi(b, k + 1)
                    - tlo(b, k + 1) >= 3 && forall|j: int|
                    tlo(b, k + 1) <= j < thi(b, k + 1) ==> b[j] == 0x2D;
            &&& (detected_style(b) == Style::NumPy) <==> (!sphinx && underlined)
            &&& (detected_style(b) == Style::Google) <==> (!sphinx && !underlined)
        }),
{
    let b = input.spec_bytes();
    law_detect_style_sphinx(input);
    if has_numpy_sections(b) {
        let k = choose|k: int| 0 <= k && k + 1 < line_count(b) && #[trigger] underlined_line(b, k);
        lemma_line_bounds(b, k);
        assert(thi(b, k + 1) - tlo(b, k + 1) >= 3);
    }
    if exists|k: int|
        0 <= k && k + 1 < line_count(b) && tlo(b, k) < thi(b, k) && #[trigger] thi(b, k + 1) - tlo(
            b,
            k + 1,
        ) >= 3 && forall|j: int| tlo(b, k + 1) <= j < thi(b, k + 1) ==> b[j] == 0x2D {
        let k = choose|k: int|
            0 <= k && k + 1 < line_count(b) && tlo(b, k) < thi(b, k) && #[trigger] thi(b, k + 1) - tlo(
                b,
                k + 1,
            ) >= 3 && forall|j: int| tlo(b, k + 1) <= j < thi(b, k + 1) ==> b[j] == 0x2D;
        assert(underlined_line(b, k));
    }
}

/// `r` is the parse of `input` in its detected style.
pub open spec fn is_auto_parse(input: &str, r: ParseResult<Docstring>) -> bool {
    match detected_style(input.spec_bytes()) {
        Style::NumPy => r.value matches Docstring::NumPy(d) && is_numpy_parse(input, d@)
            && r.diagnostics@.len() == 0,
        Style::Google => r.value matches Docstring::Google(d) && is_google_parse(input, d@)
            && r.diagnostics@.len() == 0,
        Style::Sphinx => r.value matches Docstring::Sphinx(d) && is_sphinx_parse(
            input,
            ParseResult { value: d, diagnostics: r.diagnostics },
        ),
    }
}

/// Law: the docstring that `parse` gives back has the style that
/// `detect_style` finds in the same input; a NumPy or Google one comes with
/// no diagnostics.
pub proof fn law_parse_detected_style(input: &str, r: ParseResult<Docstring>)
    requires
        is_auto_parse(input, r),
    ensures
        docstring_style(r.value) == detected_style(input.spec_bytes()),
        detected_style(input.spec_bytes()) != Style::Sphinx ==> r.diagnostics@.len() == 0,
{
}

/// Parse a docstring in its detected style.
pub fn parse(input: &str) -> (r: ParseResult<Docstring>)
    requires
        input.spec_bytes().len() <= u32::MAX,
    ensures
        is_auto_parse(input, r),
{
    match detect_style(input) {
        Style::NumPy => ParseResult::ok(Docstring::NumPy(parse_numpy(input))),
        Style::Google => ParseResult::ok(Docstring::Google(parse_google(input))),
        Style::Sphinx => {
            let ParseResult { value, diagnostics } = parse_sphinx(input);
            ParseResult { value: Docstring::Sphinx(value), diagnostics }
        },
    }
}

} // verus!
