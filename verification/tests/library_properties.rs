//! Concrete checks of the library's laws and of its smaller building blocks:
//! ranges, line index, spans, diagnostics and the docstring accessors.

use pydocstring::cursor::Cursor;
use pydocstring::google::parse_google;
use pydocstring::google::parser::section_header_at;
use pydocstring::numpy::parse_numpy;
use pydocstring::span::{Position, Span};
use pydocstring::{detect_style, parse, Diagnostic, Docstring, GoogleDocstring, GoogleDocstringItem, GoogleSectionBody, GoogleSectionKind, LineIndex, NumPyDocstring, NumPyDocstringItem, NumPySectionBody, NumPySectionKind, ParseResult, Severity, Spanned, Style, TextRange, TextSize};

fn slice(src: &str, r: TextRange) -> &str {
    &src[r.start.0 as usize..r.end.0 as usize]
}

fn check_range(src: &str, r: TextRange) {
    let (s, e) = (r.start.0 as usize, r.end.0 as usize);
    assert!(s <= e && e <= src.len());
    assert!(src.is_char_boundary(s));
    assert!(src.is_char_boundary(e));
}

fn google_ranges(doc: &GoogleDocstring) -> Vec<TextRange> {
    let mut out = vec![doc.range];
    out.extend(doc.summary);
    out.extend(doc.extended_summary);
    for item in &doc.items {
        match item {
            GoogleDocstringItem::Section(s) => {
                out.push(s.range);
                out.push(s.header.range);
                out.push(s.header.name);
                out.extend(s.header.colon);
                match &s.body {
                    GoogleSectionBody::Args(v) => {
                        for a in v {
                            out.extend([a.range, a.name, a.description]);
                            out.extend(a.ty);
                            out.extend(a.optional);
                            out.extend(a.open_bracket);
                            out.extend(a.close_bracket);
                            out.extend(a.colon);
                        }
                    }
                    GoogleSectionBody::Raises(v) => {
                        for x in v {
                            out.extend([x.range, x.ty, x.description]);
                            out.extend(x.colon);
                        }
                    }
                    GoogleSectionBody::Returns(r) => {
                        out.extend([r.range, r.description]);
                        out.extend(r.return_type);
                        out.extend(r.colon);
                    }
                    GoogleSectionBody::Notes(t) => out.push(*t),
                    _ => {}
                }
            }
            GoogleDocstringItem::StrayLine(r) => out.push(*r),
        }
    }
    out
}

fn numpy_ranges(doc: &NumPyDocstring) -> Vec<TextRange> {
    let mut out = vec![doc.range];
    out.extend(doc.summary);
    out.extend(doc.extended_summary);
    for item in &doc.items {
        match item {
            NumPyDocstringItem::Section(s) => {
                out.extend([s.range, s.header.range, s.header.name, s.header.underline]);
                match &s.body {
                    NumPySectionBody::Parameters(v) => {
                        for p in v {
                            out.push(p.range);
                            out.extend(p.names.iter().copied());
                            out.extend(p.ty);
                            out.extend(p.description);
                            out.extend(p.colon);
                        }
                    }
                    NumPySectionBody::Returns(v) => {
                        for r in v {
                            out.push(r.range);
                            out.extend(r.name);
                            out.extend(r.return_type);
                            out.extend(r.description);
                        }
                    }
                    _ => {}
                }
            }
            NumPyDocstringItem::StrayLine(r) => out.push(*r),
        }
    }
    out
}

// -- Law: every range lies on character boundaries of the source --

#[test]
fn google_ranges_fall_on_char_boundaries() {
    let src = "Résumé — naïve.\n\nÉtendu ü.\n\nArgs:\n    größe (int, optional): Größe in µm.\n    ñ: Ñandú.\n\nRaises:\n    Ärger: Wenn ö.\n\nReturns:\n    bool: Ja ✓.\n\nNotes:\n    Ünïcödé.\n";
    let doc = parse_google(src);
    assert_eq!(slice(src, doc.summary.unwrap()), "Résumé — naïve.");
    let ranges = google_ranges(&doc);
    assert!(ranges.len() > 20);
    for r in ranges {
        check_range(src, r);
    }
}

#[test]
fn numpy_ranges_fall_on_char_boundaries() {
    let src = "Résumé — naïve.\n\nParameters\n----------\ngröße : int, optional\n    Größe in µm.\n\nReturns\n-------\nü : bool\n    Ja ✓.\n";
    let doc = parse_numpy(src);
    assert_eq!(slice(src, doc.summary.unwrap()), "Résumé — naïve.");
    let ranges = numpy_ranges(&doc);
    assert!(ranges.len() > 10);
    for r in ranges {
        check_range(src, r);
    }
}

// -- Law: blank input gives the empty docstring; other input is covered whole --

#[test]
fn google_blank_input_is_empty() {
    let doc = parse_google("  \n\t\n   ");
    assert_eq!(doc.range, TextRange::empty());
    assert!(doc.summary.is_none());
    assert!(doc.extended_summary.is_none());
    assert!(doc.items.is_empty());
}

#[test]
fn google_nonblank_input_range_covers_all() {
    let src = "\n  Summary.  \n\n";
    let doc = parse_google(src);
    assert_eq!(doc.range, TextRange::new(TextSize::new(0), TextSize::new(src.len() as u32)));
}

#[test]
fn numpy_blank_input_is_empty() {
    let doc = parse_numpy("\u{3000}\n \n");
    assert_eq!(doc.range, TextRange::empty());
    assert!(doc.summary.is_none());
    assert!(doc.deprecation.is_none());
    assert!(doc.extended_summary.is_none());
    assert!(doc.items.is_empty());
}

#[test]
fn numpy_nonblank_input_range_covers_all() {
    let src = "\n\nSummary.\n";
    let doc = parse_numpy(src);
    assert_eq!(doc.range, TextRange::new(TextSize::new(0), TextSize::new(src.len() as u32)));
}

// -- Law: lowercased display names map back to their kind --

#[test]
fn numpy_kind_names_round_trip() {
    let mut kinds = NumPySectionKind::all();
    assert_eq!(kinds.len(), 14);
    kinds.push(NumPySectionKind::Unknown);
    for k in kinds {
        let lower = k.display_name().to_lowercase();
        assert_eq!(NumPySectionKind::from_name(&lower), k);
    }
    assert_eq!(NumPySectionKind::OtherParameters.display_name(), "Other Parameters");
}

#[test]
fn google_kind_names_round_trip() {
    let kinds = [
        GoogleSectionKind::Args,
        GoogleSectionKind::KeywordArgs,
        GoogleSectionKind::OtherParameters,
        GoogleSectionKind::Receives,
        GoogleSectionKind::Returns,
        GoogleSectionKind::Yields,
        GoogleSectionKind::Raises,
        GoogleSectionKind::Warns,
        GoogleSectionKind::SeeAlso,
        GoogleSectionKind::Attributes,
        GoogleSectionKind::Methods,
        GoogleSectionKind::Notes,
        GoogleSectionKind::Examples,
        GoogleSectionKind::Todo,
        GoogleSectionKind::References,
        GoogleSectionKind::Warnings,
        GoogleSectionKind::Attention,
        GoogleSectionKind::Caution,
        GoogleSectionKind::Danger,
        GoogleSectionKind::Error,
        GoogleSectionKind::Hint,
        GoogleSectionKind::Important,
        GoogleSectionKind::Tip,
        GoogleSectionKind::Unknown,
    ];
    for k in kinds {
        let lower = k.display_name().to_lowercase();
        assert_eq!(GoogleSectionKind::from_name(&lower), k);
    }
    assert_eq!(GoogleSectionKind::KeywordArgs.display_name(), "Keyword Args");
    assert!(GoogleSectionKind::is_known("keyword arguments"));
    assert!(!GoogleSectionKind::is_known("Args"));
}

// -- Law: parse follows detect_style --

#[test]
fn parse_style_matches_detect_style() {
    let inputs = [
        "Summary.\n\nParameters\n----------\nx : int\n    Desc.",
        "Summary.\n\nArgs:\n    x: Desc.",
        "Summary.\n\n:param x: Desc.",
        "Just a line.",
        "",
    ];
    for input in inputs {
        let r = parse(input);
        assert_eq!(r.value.style(), detect_style(input));
        if detect_style(input) != Style::Sphinx {
            assert!(r.diagnostics.is_empty());
        }
    }
}

// -- Law: has_errors / has_warnings agree with errors / warnings --

fn diag(sev: Severity, msg: &str) -> Diagnostic {
    Diagnostic::new(Span::empty(), sev, msg.to_string())
}

#[test]
fn severity_queries_agree() {
    let none: ParseResult<u8> = ParseResult::ok(1);
    assert!(!none.has_errors());
    assert!(!none.has_warnings());
    assert!(none.errors().is_empty());
    assert!(none.warnings().is_empty());

    let hints = ParseResult::with_diagnostics(2u8, vec![diag(Severity::Hint, "h")]);
    assert!(!hints.has_errors());
    assert!(!hints.has_warnings());

    let warn = ParseResult::with_diagnostics(
        3u8,
        vec![diag(Severity::Hint, "h"), diag(Severity::Warning, "w")],
    );
    assert!(!warn.has_errors());
    assert!(warn.has_warnings());
    assert_eq!(warn.warnings().len(), 1);
    assert_eq!(warn.warnings()[0].message, "w");
    assert!(warn.errors().is_empty());

    let mixed = ParseResult::with_diagnostics(
        4u8,
        vec![
            diag(Severity::Error, "e1"),
            diag(Severity::Warning, "w"),
            diag(Severity::Error, "e2"),
        ],
    );
    assert!(mixed.has_errors());
    assert!(mixed.has_warnings());
    let errs: Vec<&str> = mixed.errors().iter().map(|d| d.message.as_str()).collect();
    assert_eq!(errs, vec!["e1", "e2"]);
}

#[test]
fn diagnostic_constructors_set_severity() {
    let span = Span::new(Position::new(1, 2, 3), Position::new(1, 5, 6));
    let e = Diagnostic::error(span, "bad".to_string());
    let w = Diagnostic::warning(span, "odd".to_string());
    let h = Diagnostic::hint(span, "tip".to_string());
    assert_eq!(e.severity, Severity::Error);
    assert_eq!(w.severity, Severity::Warning);
    assert_eq!(h.severity, Severity::Hint);
    assert_eq!(e.span, span);
    assert_eq!(h.message, "tip");
}

#[test]
fn parse_result_map_keeps_diagnostics() {
    let r = ParseResult::with_diagnostics(20u32, vec![diag(Severity::Warning, "w")]);
    let m = r.map(|v| v + 1);
    assert_eq!(m.value, 21);
    assert_eq!(m.diagnostics.len(), 1);
    assert_eq!(m.into_value(), 21);
}

// -- Line index --

#[test]
fn line_index_positions() {
    let src = "ab\ncd\n\nxyz";
    let idx = LineIndex::from_source(src);
    assert_eq!(idx.line_count(), 4);
    assert_eq!(idx.line_col(TextSize::new(0)), (0, 0));
    assert_eq!(idx.line_col(TextSize::new(2)), (0, 2));
    assert_eq!(idx.line_col(TextSize::new(3)), (1, 0));
    assert_eq!(idx.line_col(TextSize::new(4)), (1, 1));
    assert_eq!(idx.line_col(TextSize::new(6)), (2, 0));
    assert_eq!(idx.line_col(TextSize::new(9)), (3, 2));
    assert_eq!(idx.line(TextSize::new(8)), 3);
    assert_eq!(idx.line_start(1), TextSize::new(3));
    assert_eq!(idx.line_start(3), TextSize::new(7));
    assert_eq!(idx.line_start(4), TextSize::new(0));
    for off in 0..=src.len() as u32 {
        let (line, col) = idx.line_col(TextSize::new(off));
        assert_eq!(idx.line_start(line).raw() + col, off);
    }
}

#[test]
fn line_index_of_empty_source() {
    let idx = LineIndex::from_source("");
    assert_eq!(idx.line_count(), 1);
    assert_eq!(idx.line_col(TextSize::new(5)), (0, 5));
}

// -- Text ranges --

#[test]
fn text_range_basics() {
    let r = TextRange::new(TextSize::new(2), TextSize::new(5));
    assert_eq!(r.start(), TextSize::new(2));
    assert_eq!(r.end(), TextSize::new(5));
    assert_eq!(r.len(), TextSize::new(3));
    assert!(!r.is_empty());
    assert!(r.contains(TextSize::new(2)));
    assert!(r.contains(TextSize::new(4)));
    assert!(!r.contains(TextSize::new(5)));
    assert!(TextRange::empty().is_empty());
    assert_eq!(TextRange::from_offset_len(4, 3), TextRange::new(TextSize::new(4), TextSize::new(7)));
}

#[test]
fn text_range_from_offset_len_truncates() {
    let big = (u32::MAX as usize) + 6;
    let r = TextRange::from_offset_len(big, 2);
    assert_eq!(r.start().raw(), 5);
    assert_eq!(r.end().raw(), 7);
}

#[test]
fn text_range_extend() {
    let mut r = TextRange::empty();
    r.extend(TextRange::new(TextSize::new(3), TextSize::new(4)));
    assert_eq!(r, TextRange::new(TextSize::new(3), TextSize::new(4)));
    r.extend(TextRange::new(TextSize::new(8), TextSize::new(10)));
    assert_eq!(r, TextRange::new(TextSize::new(3), TextSize::new(10)));
}

#[test]
fn text_range_source_text() {
    let src = "héllo world";
    assert_eq!(TextRange::new(TextSize::new(0), TextSize::new(6)).source_text(src), "héllo");
    assert_eq!(TextRange::new(TextSize::new(5), TextSize::new(2)).source_text(src), "");
    assert_eq!(TextRange::new(TextSize::new(7), TextSize::new(99)).source_text(src), "");
    assert_eq!(TextRange::empty().source_text(src), "");
}

#[test]
fn span_source_text() {
    let src = "abc\ndef";
    let span = Span::new(Position::new(0, 1, 1), Position::new(1, 2, 6));
    assert_eq!(span.source_text(src), "bc\nde");
    let rev = Span::new(Position::new(0, 3, 3), Position::new(0, 1, 1));
    assert_eq!(rev.source_text(src), "");
    assert_eq!(Span::empty().source_text(src), "");
    assert_eq!(Position::zero(), Position::new(0, 0, 0));
}

#[test]
fn spanned_values() {
    let r = TextRange::new(TextSize::new(1), TextSize::new(4));
    let s = Spanned::new(String::from("abc"), r);
    let borrowed = s.as_spanned_str();
    assert_eq!(borrowed.value, "abc");
    assert_eq!(borrowed.range, r);
    assert_eq!(s.into_inner(), "abc");
    let d = Spanned::dummy(7u8);
    assert_eq!(d.range, TextRange::empty());
    let e = Spanned::empty_string();
    assert_eq!(e.value, "");
    assert!(e.range.is_empty());
}

#[test]
fn style_display_names() {
    assert_eq!(Style::NumPy.display_name(), "numpy");
    assert_eq!(Style::Google.display_name(), "google");
    assert_eq!(Style::Sphinx.display_name(), "sphinx");
}

// -- The docstring enum --

#[test]
fn docstring_accessors() {
    let n = parse("Sum N.\n\nParameters\n----------\nx : int\n    D.").value;
    assert_eq!(n.style(), Style::NumPy);
    assert!(n.as_numpy().is_some());
    assert!(n.as_google().is_none());
    assert!(n.as_sphinx().is_none());
    assert_eq!(n.summary(), "Sum N.");

    let g = parse("Sum G.\n\nArgs:\n    x: D.").value;
    assert!(g.as_google().is_some());
    assert!(g.as_numpy().is_none());
    assert_eq!(g.summary(), "Sum G.");

    let s = parse("Sum S.\n\n:param x: D.").value;
    assert!(s.as_sphinx().is_some());
    assert_eq!(s.summary(), "Sum S.");

    let empty = parse("   ").value;
    assert_eq!(empty.summary(), "");
    match empty {
        Docstring::Google(d) => assert!(d.summary.is_none()),
        _ => panic!("blank input is read as Google style"),
    }
}

// -- Unicode classes behind the Google header test --

fn is_header(text: &str) -> bool {
    section_header_at(&Cursor::new(text)).is_some()
}

#[test]
fn header_names_use_unicode_alphanumerics() {
    assert!(is_header("Größe:"));
    assert!(is_header("Año 2:"));
    assert!(!is_header("Ñandú:"));
    assert!(is_header("Maß½:"));
    assert!(!is_header("a→b:"));
    assert!(!is_header("x—y:"));
    assert!(!is_header("a.b:"));
}

// -- NumPy accessors --

#[test]
fn numpy_accessors() {
    let src = "Sum.\n\n.. deprecated:: 1.2\n    Use other.\n\nMore text.\n\nParameters\n----------\nx : int, optional\n    The x.\n\nReturns\n-------\nint\n    Result.\n";
    let doc = parse_numpy(src);
    assert_eq!(slice(src, doc.summary().unwrap()), "Sum.");
    assert_eq!(slice(src, doc.extended_summary().unwrap()), "More text.");
    let dep = doc.deprecation().unwrap();
    assert_eq!(slice(src, dep.version()), "1.2");
    assert_eq!(slice(src, dep.description().unwrap()), "Use other.");
    assert_eq!(doc.source(), src);
    let secs = doc.sections();
    assert_eq!(secs.len(), 2);
    assert_eq!(secs[0].section_kind(src), NumPySectionKind::Parameters);
    assert_eq!(slice(src, secs[0].header().underline()), "----------");
    let params = secs[0].parameters();
    assert_eq!(params.len(), 1);
    assert_eq!(slice(src, params[0].names()[0]), "x");
    assert_eq!(slice(src, params[0].ty().unwrap()), "int");
    assert!(params[0].optional().is_some());
    let rets = secs[1].return_entries();
    assert_eq!(rets.len(), 1);
    assert_eq!(slice(src, rets[0].return_type().unwrap()), "int");
    assert!(secs[1].parameters().is_empty());
    assert!(doc.stray_lines().is_empty());
}
