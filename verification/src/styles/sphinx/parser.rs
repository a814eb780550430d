//! Sphinx-style docstring parser (summary line only).
use vstd::prelude::*;
use vstd::string::StringSliceAdditionalSpecFns;
use vstd::utf8::decode_utf8;
use crate::ast::Spanned;
use crate::cursor::{Cursor, tlo, thi};
use crate::error::{Diagnostic, ParseResult, Severity};
use crate::span::Span;
use crate::styles::sphinx::ast::SphinxDocstring;
use crate::text::TextRange;

verus! {

/// The message of the diagnostic every Sphinx parse reports.
pub open spec fn sphinx_unsupported_message() -> &'static str {
    "Sphinx-style docstrings are not supported yet"
}

/// `r` is the Sphinx-style parse of `input`: the trimmed first line as the
/// summary (with an empty range), no fields, and one error diagnostic.
pub open spec fn is_sphinx_parse(input: &str, r: ParseResult<SphinxDocstring>) -> bool {
    let b = input.spec_bytes();
    &&& r.value.source@ == input@
    &&& r.value.range == TextRange::spec_empty()
    &&& r.value.summary.value@ == decode_utf8(b.subrange(tlo(b, 0), thi(b, 0)))
    &&& r.value.summary.range == TextRange::spec_empty()
    &&& r.value.description is None
    &&& r.value.parameters@.len() == 0
    &&& r.value.returns is None
    &&& r.value.raises@.len() == 0
    &&& r.value.variables@.len() == 0
    &&& r.value.instance_variables@.len() == 0
    &&& r.value.class_variables@.len() == 0
    &&& r.value.custom_fields@.len() == 0
    &&& r.diagnostics@.len() == 1
    &&& r.diagnostics@[0].severity == Severity::Error
    &&& r.diagnostics@[0].span == Span::empty_spec()
    &&& r.diagnostics@[0].message@ == sphinx_unsupported_message()@
}

/// Parse a Sphinx-style docstring.  Only the summary (the trimmed first
/// line) is extracted; an error diagnostic reports that the style is not
/// supported.
pub fn parse_sphinx(input: &str) -> (r: ParseResult<SphinxDocstring>)
    ensures
        is_sphinx_parse(input, r),
{
    let c = Cursor::new(input);
    let text = c.current_trimmed();
    proof {
        vstd::utf8::encode_utf8_decode_utf8(text@);
    }
    let mut doc = SphinxDocstring::new();
    doc.source = input.to_owned();
    doc.summary = Spanned::dummy(text.to_owned());
    let message = "Sphinx-style docstrings are not supported yet".to_owned();
    let mut diagnostics: Vec<Diagnostic> = Vec::new();
    diagnostics.push(Diagnostic::error(Span::empty(), message));
    ParseResult::with_diagnostics(doc, diagnostics)
}

} // verus!
