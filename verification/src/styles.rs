//! Docstring style implementations, and detection between the NumPy and
//! Google styles.
pub mod google;
pub mod numpy;
pub mod ranges;
pub mod sphinx;
pub mod utils;

use vstd::prelude::*;
use vstd::string::StringSliceAdditionalSpecFns;
use crate::ast::Style;
use crate::cursor::{Cursor, tlo, thi, line_count};
use crate::lexical::lower_seq;
use crate::parser::{has_numpy_sections, numpy_sections_exec};
use crate::styles::google::ast::{GoogleSectionKind, google_kind, google_kind_of};

verus! {

/// Line `k` (trimmed) is a known Google section name followed by a colon.
pub open spec fn known_google_header_line(b: Seq<u8>, k: int) -> bool {
    let s = tlo(b, k);
    let e = thi(b, k);
    &&& s < e
    &&& b[e - 1] == 0x3A
    &&& google_kind(lower_seq(b.subrange(s, e - 1))) != GoogleSectionKind::Unknown
}

/// Some line is a known Google section name followed by a colon.
pub open spec fn has_known_google_header(b: Seq<u8>) -> bool {
    exists|k: int| 0 <= k < line_count(b) && #[trigger] known_google_header_line(b, k)
}

fn known_google_header_exec(c: &Cursor) -> (r: bool)
    requires
        c.lines_wf(),
    ensures
        r == has_known_google_header(c.b()),
{
    let ghost b = c.b();
    let mut k: usize = 0;
    while k < c.total
        invariant
            c.lines_wf(),
            b == c.b(),
            k <= c.total,
            forall|j: int| 0 <= j < k ==> !#[trigger] known_google_header_line(b, j),
        decreases c.total - k,
    {
        let (s, e) = c.trimmed_bounds(k);
        if s < e && c.bytes[e - 1] == 0x3A && !matches!(
            google_kind_of(c.bytes, s, e - 1, true),
            GoogleSectionKind::Unknown
        ) {
            assert(known_google_header_line(b, k as int));
            return true;
        }
        k = k + 1;
    }
    false
}

/// Detect the docstring style between NumPy and Google: NumPy when a
/// non-blank line is followed by a line of at least three dashes, Google
/// otherwise (whether or not a known `Name:` header occurs).
pub fn detect_style(input: &str) -> (r: Style)
    ensures
        r == (if has_numpy_sections(input.spec_bytes()) {
            Style::NumPy
        } else {
            Style::Google
        }),
{
    let c = Cursor::new(input);
    if numpy_sections_exec(&c) {
        return Style::NumPy;
    }
    if known_google_header_exec(&c) {
        return Style::Google;
    }
    Style::Google
}

} // verus!
