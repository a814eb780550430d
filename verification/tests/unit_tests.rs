//! Unit-level scenarios: header and entry recognition, bracket-aware
//! splitting, style detection and the Sphinx summary.

use pydocstring::cursor::Cursor;
use pydocstring::google::parser::{entry_header_at, section_header_at, strip_optional_exec};
use pydocstring::numpy::parser::{is_underline, numpy_header_at, parse_name_and_type};
use pydocstring::sphinx::parse_sphinx;
use pydocstring::styles::utils::{find_entry_colon, split_comma_parts};
use pydocstring::{detect_style, parse, NumPySectionKind, Severity, Style};

// -- Google section headers --

fn is_header(text: &str) -> bool {
    let cursor = Cursor::new(text);
    section_header_at(&cursor).is_some()
}

#[test]
fn test_is_section_header() {
    // Standard colon form (expects pre-trimmed input)
    assert!(is_header("Args:"));
    // "NotASection:" is still detected as an unknown section header (has colon)
    assert!(is_header("NotASection:"));
    assert!(is_header("Returns:"));
    assert!(is_header("Custom:"));
    // Case-insensitive
    assert!(is_header("args:"));
    assert!(is_header("RETURNS:"));
    // Not a section header: contains embedded colon
    assert!(!is_header("key: value:"));
    // Long names with colon are still accepted
    assert!(is_header(
        "This is a very long line that should not be a section header:"
    ));

    // Space-before-colon form
    assert!(is_header("Args :"));
    assert!(is_header("Returns :"));

    // Colonless form — only known section names
    assert!(is_header("Args"));
    assert!(is_header("Returns"));
    assert!(is_header("args"));
    assert!(is_header("RETURNS"));
    assert!(is_header("See Also"));
    // Unknown names without colon are NOT headers
    assert!(!is_header("NotASection"));
    assert!(!is_header("SomeWord"));
}

// -- Google entry headers --

fn header_from(text: &str) -> pydocstring::google::parser::EntryHeader {
    let cursor = Cursor::new(text);
    entry_header_at(&cursor)
}

#[test]
fn test_parse_entry_header_with_type() {
    let src = "name (int): Description";
    let header = header_from(src);
    assert_eq!(header.name.source_text(src), "name");
    assert!(header.type_info.is_some());
    let ti = header.type_info.unwrap();
    assert_eq!(ti.ty.unwrap().source_text(src), "int");
    assert_eq!(header.first_description.source_text(src), "Description");
}

#[test]
fn test_parse_entry_header_optional() {
    let src = "name (int, optional): Description";
    let header = header_from(src);
    assert_eq!(header.name.source_text(src), "name");
    let ti = header.type_info.unwrap();
    assert_eq!(ti.ty.unwrap().source_text(src), "int");
    assert!(ti.optional.is_some());
    assert_eq!(ti.optional.unwrap().source_text(src), "optional");
}

#[test]
fn test_parse_entry_header_no_type() {
    let src = "name: Description";
    let header = header_from(src);
    assert_eq!(header.name.source_text(src), "name");
    assert!(header.type_info.is_none());
    assert_eq!(header.first_description.source_text(src), "Description");
}

#[test]
fn test_parse_entry_header_complex_type() {
    let src = "data (Dict[str, List[int]]): Values";
    let header = header_from(src);
    assert_eq!(header.name.source_text(src), "data");
    let ti = header.type_info.unwrap();
    assert_eq!(ti.ty.unwrap().source_text(src), "Dict[str, List[int]]");
    assert_eq!(header.first_description.source_text(src), "Values");
}

#[test]
fn test_parse_entry_header_colon_only() {
    let src = "x:";
    let header = header_from(src);
    assert_eq!(header.name.source_text(src), "x");
    assert!(header.type_info.is_none());
    assert!(header.first_description.is_empty());
}

#[test]
fn test_parse_entry_header_varargs() {
    let src1 = "*args: Positional arguments";
    let header = header_from(src1);
    assert_eq!(header.name.source_text(src1), "*args");
    assert_eq!(
        header.first_description.source_text(src1),
        "Positional arguments"
    );

    let src2 = "**kwargs (dict): Keyword arguments";
    let header = header_from(src2);
    assert_eq!(header.name.source_text(src2), "**kwargs");
    let ti = header.type_info.unwrap();
    assert_eq!(ti.ty.unwrap().source_text(src2), "dict");
}

#[test]
fn test_parse_entry_header_no_space_after_colon() {
    let src = "name:Description";
    let header = header_from(src);
    assert_eq!(header.name.source_text(src), "name");
    assert!(header.type_info.is_none());
    assert_eq!(header.first_description.source_text(src), "Description");
}

#[test]
fn test_parse_entry_header_extra_spaces_after_colon() {
    let src = "name:   Description";
    let header = header_from(src);
    assert_eq!(header.name.source_text(src), "name");
    assert!(header.type_info.is_none());
    assert_eq!(header.first_description.source_text(src), "Description");
}

// -- strip_optional --

fn strip_optional(text: &str) -> (&str, Option<usize>) {
    let (end, opt) = strip_optional_exec(text.as_bytes(), 0, text.len());
    (&text[..end], opt)
}

#[test]
fn test_strip_optional_basic() {
    assert_eq!(strip_optional("int, optional"), ("int", Some(5)));
    assert_eq!(strip_optional("int"), ("int", None));
    assert_eq!(
        strip_optional("Dict[str, int], optional"),
        ("Dict[str, int]", Some(16))
    );
    assert_eq!(strip_optional("optional"), ("", Some(0)));
    // Varying whitespace after comma
    assert_eq!(strip_optional("int,optional"), ("int", Some(4)));
    assert_eq!(strip_optional("int,  optional"), ("int", Some(6)));
    assert_eq!(strip_optional("int, optional  "), ("int", Some(5)));
}

// -- NumPy section headers --

fn underline(text: &str) -> bool {
    is_underline(text.as_bytes(), 0, text.len())
}

#[test]
fn test_is_underline() {
    assert!(underline("----------"));
    assert!(underline("---"));
    assert!(!underline(""));
    assert!(!underline("not dashes"));
    assert!(!underline("---x---"));
}

#[test]
fn test_try_parse_numpy_header() {
    let c1 = Cursor::new("Parameters\n----------");
    assert!(numpy_header_at(&c1, c1.line).is_some());
    assert_eq!(
        numpy_header_at(&c1, c1.line).unwrap().kind,
        NumPySectionKind::Parameters
    );

    // No section
    let c2 = Cursor::new("just text\nmore text");
    assert!(numpy_header_at(&c2, c2.line).is_none());

    // Empty line before underline — not a header
    let c3 = Cursor::new("\n----------");
    assert!(numpy_header_at(&c3, c3.line).is_none());

    // Single line — no room for underline
    let c4 = Cursor::new("Only one line");
    assert!(numpy_header_at(&c4, c4.line).is_none());

    // Header at non-zero line
    let mut c5 = Cursor::new("Parameters\n----------\nx : int\nReturns\n-------");
    assert!(numpy_header_at(&c5, c5.line).is_some());
    c5.line = 3;
    assert!(numpy_header_at(&c5, c5.line).is_some());
    assert_eq!(
        numpy_header_at(&c5, c5.line).unwrap().kind,
        NumPySectionKind::Returns
    );
}

// -- NumPy parameter headers --

fn is_param_header(trimmed: &str) -> bool {
    find_entry_colon(trimmed.as_bytes(), 0, trimmed.len()).is_some()
}

#[test]
fn test_is_param_header() {
    assert!(is_param_header("x : int"));
    assert!(is_param_header("x: int"));
    assert!(is_param_header("x:int"));
    assert!(is_param_header("x:"));
    assert!(!is_param_header("just a name"));
}

fn name_and_type(src: &str) -> pydocstring::numpy::parser::ParamHeaderParts {
    parse_name_and_type(src.as_bytes(), 0, src.len())
}

#[test]
fn test_parse_name_and_type_basic() {
    let src = "x : int";
    let p = name_and_type(src);
    assert_eq!(p.names[0].source_text(src), "x");
    assert!(p.colon.is_some());
    assert_eq!(p.param_type.unwrap().source_text(src), "int");
    assert!(p.optional.is_none());
    assert!(p.default_keyword.is_none());
    assert!(p.default_value.is_none());
}

#[test]
fn test_parse_name_and_type_optional() {
    let src = "x : int, optional";
    let p = name_and_type(src);
    assert_eq!(p.names[0].source_text(src), "x");
    assert!(p.colon.is_some());
    assert_eq!(p.param_type.unwrap().source_text(src), "int");
    assert!(p.optional.is_some());
}

#[test]
fn test_parse_name_and_type_optional_no_space() {
    let src = "x : int,optional";
    let p = name_and_type(src);
    assert!(p.colon.is_some());
    assert_eq!(p.param_type.unwrap().source_text(src), "int");
    assert!(p.optional.is_some());
}

#[test]
fn test_parse_name_and_type_default_space() {
    let src = "x : int, default True";
    let p = name_and_type(src);
    assert!(p.colon.is_some());
    assert_eq!(p.param_type.unwrap().source_text(src), "int");
    assert_eq!(
        p.default_keyword.as_ref().unwrap().source_text(src),
        "default"
    );
    assert!(p.default_separator.is_none()); // space-separated, no = or :
    assert_eq!(p.default_value.unwrap().source_text(src), "True");
}

#[test]
fn test_parse_name_and_type_default_equals() {
    let src = "x : int, default=True";
    let p = name_and_type(src);
    assert_eq!(p.param_type.unwrap().source_text(src), "int");
    assert_eq!(
        p.default_keyword.as_ref().unwrap().source_text(src),
        "default"
    );
    assert_eq!(p.default_separator.as_ref().unwrap().source_text(src), "=");
    assert_eq!(p.default_value.unwrap().source_text(src), "True");
}

#[test]
fn test_parse_name_and_type_default_colon() {
    let src = "x : int, default: True";
    let p = name_and_type(src);
    assert_eq!(p.param_type.unwrap().source_text(src), "int");
    assert_eq!(
        p.default_keyword.as_ref().unwrap().source_text(src),
        "default"
    );
    assert_eq!(p.default_separator.as_ref().unwrap().source_text(src), ":");
    assert_eq!(p.default_value.unwrap().source_text(src), "True");
}

#[test]
fn test_parse_name_and_type_default_bare() {
    // "default" alone with no value
    let src = "x : int, default";
    let p = name_and_type(src);
    assert_eq!(p.param_type.unwrap().source_text(src), "int");
    assert_eq!(
        p.default_keyword.as_ref().unwrap().source_text(src),
        "default"
    );
    assert!(p.default_separator.is_none());
    assert!(p.default_value.is_none());
}

#[test]
fn test_parse_name_and_type_complex() {
    let src = "x : Dict[str, int], optional";
    let p = name_and_type(src);
    assert!(p.colon.is_some());
    assert_eq!(p.param_type.unwrap().source_text(src), "Dict[str, int]");
    assert!(p.optional.is_some());
}

#[test]
fn test_parse_name_and_type_no_colon() {
    let src = "x";
    let p = name_and_type(src);
    assert_eq!(p.names[0].source_text(src), "x");
    assert!(p.colon.is_none());
    assert!(p.param_type.is_none());
    assert!(p.optional.is_none());
    assert!(p.default_keyword.is_none());
    assert!(p.default_value.is_none());
}

// -- bracket-aware helpers --

fn entry_colon(text: &str) -> Option<usize> {
    find_entry_colon(text.as_bytes(), 0, text.len())
}

#[test]
fn test_find_entry_colon() {
    // Basic colon
    assert_eq!(entry_colon("name: desc"), Some(4));
    assert_eq!(entry_colon("name:desc"), Some(4));
    assert_eq!(entry_colon("name:"), Some(4));
    // No colon
    assert_eq!(entry_colon("name"), None);
    // Colon inside brackets is skipped
    assert_eq!(entry_colon("Dict[str, int]: desc"), Some(14));
    assert_eq!(entry_colon("Tuple(a, b): desc"), Some(11));
    // Nested brackets
    assert_eq!(entry_colon("Dict[str, List[int]]: desc"), Some(20));
    // Only colon inside brackets — no match
    assert_eq!(entry_colon("Dict[k: v]"), None);
}

fn comma_parts(text: &str) -> Vec<(usize, &str)> {
    split_comma_parts(text.as_bytes(), 0, text.len())
        .iter()
        .map(|&(a, z)| (a, &text[a..z]))
        .collect()
}

#[test]
fn test_split_comma_parts() {
    let parts: Vec<_> = comma_parts("int, optional")
        .iter()
        .map(|(_, s)| s.trim())
        .collect();
    assert_eq!(parts, vec!["int", "optional"]);

    // Brackets respected
    let parts: Vec<_> = comma_parts("Dict[str, int], optional")
        .iter()
        .map(|(_, s)| s.trim())
        .collect();
    assert_eq!(parts, vec!["Dict[str, int]", "optional"]);

    // Offsets
    let parts = comma_parts("int, optional");
    assert_eq!(parts[0].0, 0);
    assert_eq!(parts[1].0, 4);
}

// -- style detection and automatic parsing --

#[test]
fn test_detect_sphinx() {
    assert_eq!(detect_style(":param x: value"), Style::Sphinx);
    assert_eq!(detect_style("Summary.\n\n:type x: int"), Style::Sphinx);
    assert_eq!(detect_style("Summary.\n\n:returns: value"), Style::Sphinx);
    assert_eq!(detect_style("Summary.\n\n:rtype: int"), Style::Sphinx);
}

#[test]
fn parser_test_detect_numpy() {
    let input = "Summary.\n\nParameters\n----------\nx : int\n    Desc.";
    assert_eq!(detect_style(input), Style::NumPy);
}

#[test]
fn parser_test_detect_google() {
    let input = "Summary.\n\nArgs:\n    x: Desc.";
    assert_eq!(detect_style(input), Style::Google);
}

#[test]
fn parser_test_detect_plain_defaults_to_google() {
    assert_eq!(detect_style("Just a summary."), Style::Google);
}

#[test]
fn test_parse_auto_numpy() {
    let input = "Summary.\n\nParameters\n----------\nx : int\n    Desc.";
    let doc = &parse(input).value;
    assert_eq!(doc.style(), Style::NumPy);
    assert_eq!(doc.summary(), "Summary.");
}

#[test]
fn test_parse_auto_google() {
    let input = "Summary.";
    let doc = &parse(input).value;
    assert_eq!(doc.style(), Style::Google);
    assert_eq!(doc.summary(), "Summary.");
}

#[test]
fn test_parse_auto_sphinx() {
    let input = "Summary.\n\n:param x: Desc.";
    let doc = &parse(input).value;
    assert_eq!(doc.style(), Style::Sphinx);
    assert_eq!(doc.summary(), "Summary.");
}

#[test]
fn detect_style_test_detect_numpy() {
    let input = "Summary.\n\nParameters\n----------\nx : int\n    Desc.";
    assert_eq!(detect_style(input), Style::NumPy);
}

#[test]
fn detect_style_test_detect_google() {
    let input = "Summary.\n\nArgs:\n    x: Desc.";
    assert_eq!(detect_style(input), Style::Google);
}

#[test]
fn detect_style_test_detect_plain_defaults_to_google() {
    assert_eq!(detect_style("Just a summary."), Style::Google);
}

// -- Sphinx --

#[test]
fn test_parse_simple_sphinx() {
    let docstring = "Brief description.";
    let result = parse_sphinx(docstring);
    assert_eq!(result.value.summary.value, "Brief description.");
}

#[test]
fn test_sphinx_unsupported_diagnostic() {
    let docstring = "This is a brief summary.";
    let result = parse_sphinx(docstring);

    assert_eq!(result.value.summary.value, "This is a brief summary.");
    assert_eq!(result.diagnostics.len(), 1);
    assert_eq!(result.diagnostics[0].severity, Severity::Error);
    assert!(result.diagnostics[0].message.contains("not supported"));
}

#[test]
fn test_sphinx_with_fields_still_unsupported() {
    let docstring = "Summary.\n\n:param x: The value.\n:type x: int\n:returns: Result.";
    let result = parse_sphinx(docstring);

    // Summary is extracted as best-effort
    assert_eq!(result.value.summary.value, "Summary.");
    // But fields are not parsed
    assert!(result.value.parameters.is_empty());
    assert!(result.value.returns.is_none());
    // Diagnostic indicates unsupported
    assert_eq!(result.diagnostics.len(), 1);
}
