//! NumPy-style parsing scenarios.

use pydocstring::numpy::parse_numpy;
use pydocstring::numpy::{
    NumPyAttribute, NumPyDocstring, NumPyDocstringItem, NumPyException, NumPyMethod,
    NumPyParameter, NumPyReference, NumPyReturns, NumPySection, NumPyWarning, SeeAlsoItem,
};
use pydocstring::{NumPySectionBody, NumPySectionKind, TextRange, TextSize};

// =============================================================================
// Shared helpers
// =============================================================================

/// Extract all sections from a docstring, ignoring stray lines.
fn sections(doc: &NumPyDocstring) -> Vec<&NumPySection> {
    doc.items
        .iter()
        .filter_map(|item| match item {
            NumPyDocstringItem::Section(s) => Some(s),
            _ => None,
        })
        .collect()
}

fn parameters(doc: &NumPyDocstring) -> Vec<&NumPyParameter> {
    sections(doc)
        .iter()
        .filter_map(|s| match &s.body {
            NumPySectionBody::Parameters(v) => Some(v.iter()),
            _ => None,
        })
        .flatten()
        .collect()
}

fn returns_section(doc: &NumPyDocstring) -> Vec<&NumPyReturns> {
    sections(doc)
        .iter()
        .filter_map(|s| match &s.body {
            NumPySectionBody::Returns(v) => Some(v.iter()),
            _ => None,
        })
        .flatten()
        .collect()
}

fn raises(doc: &NumPyDocstring) -> Vec<&NumPyException> {
    sections(doc)
        .iter()
        .filter_map(|s| match &s.body {
            NumPySectionBody::Raises(v) => Some(v.iter()),
            _ => None,
        })
        .flatten()
        .collect()
}

fn warns(doc: &NumPyDocstring) -> Vec<&NumPyWarning> {
    sections(doc)
        .iter()
        .filter_map(|s| match &s.body {
            NumPySectionBody::Warns(v) => Some(v.iter()),
            _ => None,
        })
        .flatten()
        .collect()
}

fn see_also(doc: &NumPyDocstring) -> Vec<&SeeAlsoItem> {
    sections(doc)
        .iter()
        .filter_map(|s| match &s.body {
            NumPySectionBody::SeeAlso(v) => Some(v.iter()),
            _ => None,
        })
        .flatten()
        .collect()
}

fn references(doc: &NumPyDocstring) -> Vec<&NumPyReference> {
    sections(doc)
        .iter()
        .filter_map(|s| match &s.body {
            NumPySectionBody::References(v) => Some(v.iter()),
            _ => None,
        })
        .flatten()
        .collect()
}

fn notes(doc: &NumPyDocstring) -> Option<&pydocstring::TextRange> {
    sections(doc).iter().find_map(|s| match &s.body {
        NumPySectionBody::Notes(v) => v.as_ref(),
        _ => None,
    })
}

fn examples(doc: &NumPyDocstring) -> Option<&pydocstring::TextRange> {
    sections(doc).iter().find_map(|s| match &s.body {
        NumPySectionBody::Examples(v) => v.as_ref(),
        _ => None,
    })
}

fn yields(doc: &NumPyDocstring) -> Vec<&NumPyReturns> {
    sections(doc)
        .iter()
        .filter_map(|s| match &s.body {
            NumPySectionBody::Yields(v) => Some(v.iter()),
            _ => None,
        })
        .flatten()
        .collect()
}

fn receives(doc: &NumPyDocstring) -> Vec<&NumPyParameter> {
    sections(doc)
        .iter()
        .filter_map(|s| match &s.body {
            NumPySectionBody::Receives(v) => Some(v.iter()),
            _ => None,
        })
        .flatten()
        .collect()
}

fn other_parameters(doc: &NumPyDocstring) -> Vec<&NumPyParameter> {
    sections(doc)
        .iter()
        .filter_map(|s| match &s.body {
            NumPySectionBody::OtherParameters(v) => Some(v.iter()),
            _ => None,
        })
        .flatten()
        .collect()
}

fn attributes(doc: &NumPyDocstring) -> Vec<&NumPyAttribute> {
    sections(doc)
        .iter()
        .filter_map(|s| match &s.body {
            NumPySectionBody::Attributes(v) => Some(v.iter()),
            _ => None,
        })
        .flatten()
        .collect()
}

fn methods(doc: &NumPyDocstring) -> Vec<&NumPyMethod> {
    sections(doc)
        .iter()
        .filter_map(|s| match &s.body {
            NumPySectionBody::Methods(v) => Some(v.iter()),
            _ => None,
        })
        .flatten()
        .collect()
}

fn warnings_text(doc: &NumPyDocstring) -> Option<&pydocstring::TextRange> {
    sections(doc).iter().find_map(|s| match &s.body {
        NumPySectionBody::Warnings(v) => v.as_ref(),
        _ => None,
    })
}

fn unknown_text(doc: &NumPyDocstring) -> Option<&pydocstring::TextRange> {
    sections(doc).iter().find_map(|s| match &s.body {
        NumPySectionBody::Unknown(v) => v.as_ref(),
        _ => None,
    })
}

#[test]
fn test_warnings_section_body_variant() {
    let docstring = "Summary.\n\nWarnings\n--------\nDo not use.\n";
    let result = parse_numpy(docstring);
    let s = &all_sections(&result)[0];
    assert_eq!(s.section_kind(result.source()), NumPySectionKind::Warnings);
    assert!(s.body_text().is_some());
}

#[test]
fn test_examples_section_body_variant() {
    let docstring = "Summary.\n\nExamples\n--------\n>>> pass\n";
    let result = parse_numpy(docstring);
    let s = &all_sections(&result)[0];
    assert_eq!(s.section_kind(result.source()), NumPySectionKind::Examples);
    assert!(s.body_text().is_some());
}

#[test]
fn freetext_test_see_also_section_body_variant() {
    let docstring = "Summary.\n\nSee Also\n--------\nfunc_a : Desc.\n";
    let result = parse_numpy(docstring);
    let s = &all_sections(&result)[0];
    assert_eq!(s.section_kind(result.source()), NumPySectionKind::SeeAlso);
    let items: Vec<_> = s.see_also_items().iter().collect();
    assert_eq!(items.len(), 1);
}

#[test]
fn parameters_test_other_parameters_section_body_variant() {
    let docstring = "Summary.\n\nOther Parameters\n----------------\nx : int\n    Extra.\n";
    let result = parse_numpy(docstring);
    let s = &all_sections(&result)[0];
    assert_eq!(s.section_kind(result.source()), NumPySectionKind::OtherParameters);
    let params: Vec<_> = s.parameters().iter().collect();
    assert_eq!(params.len(), 1);
}

#[test]
fn test_receives_section_body_variant() {
    let docstring = "Summary.\n\nReceives\n--------\ndata : bytes\n    Payload.\n";
    let result = parse_numpy(docstring);
    let s = &all_sections(&result)[0];
    assert_eq!(s.section_kind(result.source()), NumPySectionKind::Receives);
    let params: Vec<_> = s.parameters().iter().collect();
    assert_eq!(params.len(), 1);
}

#[test]
fn raises_test_warns_section_body_variant() {
    let docstring = "Summary.\n\nWarns\n-----\nUserWarning\n    Bad.\n";
    let result = parse_numpy(docstring);
    let s = &all_sections(&result)[0];
    assert_eq!(s.section_kind(result.source()), NumPySectionKind::Warns);
    let items: Vec<_> = s.warnings().iter().collect();
    assert_eq!(items.len(), 1);
}

#[test]
fn test_yields_section_body_variant() {
    let docstring = "Summary.\n\nYields\n------\nint\n    Value.\n";
    let result = parse_numpy(docstring);
    let s = &all_sections(&result)[0];
    assert_eq!(s.section_kind(result.source()), NumPySectionKind::Yields);
    let items: Vec<_> = s.return_entries().iter().collect();
    assert_eq!(items.len(), 1);
}

#[test]
fn test_section_order_preserved() {
    let docstring = r#"Summary.

Parameters
----------
x : int
    Desc.

Returns
-------
int
    Result.

Raises
------
ValueError
    Bad input.

Notes
-----
Some notes.
"#;
    let result = parse_numpy(docstring);
    let s = all_sections(&result);
    assert_eq!(s.len(), 4);
    assert_eq!(
        s[0].section_kind(result.source()),
        NumPySectionKind::Parameters
    );
    assert_eq!(
        s[1].section_kind(result.source()),
        NumPySectionKind::Returns
    );
    assert_eq!(s[2].section_kind(result.source()), NumPySectionKind::Raises);
    assert_eq!(s[3].section_kind(result.source()), NumPySectionKind::Notes);
}

#[test]
fn test_all_section_kinds_exist() {
    // Verify ALL is correct and contains no Unknown
    assert_eq!(NumPySectionKind::all().len(), 14);
    for kind in &NumPySectionKind::all() {
        assert_ne!(*kind, NumPySectionKind::Unknown);
    }
}

#[test]
fn test_section_kind_from_name_unknown() {
    assert_eq!(
        NumPySectionKind::from_name("nonexistent"),
        NumPySectionKind::Unknown
    );
    assert!(!NumPySectionKind::is_known("nonexistent"));
    assert!(NumPySectionKind::is_known("parameters"));
}

#[test]
fn test_stray_lines() {
    let docstring =
        "Summary.\n\nThis line is not a section.\n\nParameters\n----------\nx : int\n    Desc.\n";
    let result = parse_numpy(docstring);
    // The non-section line might be treated as extended summary or stray line
    // depending on parser behavior. Just verify parameters are still parsed.
    assert_eq!(parameters(&result).len(), 1);
}

#[test]
fn test_section_kind_display() {
    assert_eq!(NumPySectionKind::Parameters.display_name(), "Parameters");
    assert_eq!(NumPySectionKind::Returns.display_name(), "Returns");
    assert_eq!(NumPySectionKind::Yields.display_name(), "Yields");
    assert_eq!(NumPySectionKind::Receives.display_name(), "Receives");
    assert_eq!(
        NumPySectionKind::OtherParameters.display_name(),
        "Other Parameters"
    );
    assert_eq!(NumPySectionKind::Raises.display_name(), "Raises");
    assert_eq!(NumPySectionKind::Warns.display_name(), "Warns");
    assert_eq!(NumPySectionKind::Warnings.display_name(), "Warnings");
    assert_eq!(NumPySectionKind::SeeAlso.display_name(), "See Also");
    assert_eq!(NumPySectionKind::Notes.display_name(), "Notes");
    assert_eq!(NumPySectionKind::References.display_name(), "References");
    assert_eq!(NumPySectionKind::Examples.display_name(), "Examples");
    assert_eq!(NumPySectionKind::Attributes.display_name(), "Attributes");
    assert_eq!(NumPySectionKind::Methods.display_name(), "Methods");
    assert_eq!(NumPySectionKind::Unknown.display_name(), "Unknown");
}

#[test]
fn test_attributes_section_body_variant() {
    let docstring = "Summary.\n\nAttributes\n----------\nx : int\n    Value.\n";
    let result = parse_numpy(docstring);
    let s = &all_sections(&result)[0];
    assert_eq!(s.section_kind(result.source()), NumPySectionKind::Attributes);
    let attrs: Vec<_> = s.attributes().iter().collect();
    assert_eq!(attrs.len(), 1);
}

#[test]
fn test_attributes_section_kind() {
    let docstring = "Summary.\n\nAttributes\n----------\nx : int\n    Value.\n";
    let result = parse_numpy(docstring);
    assert_eq!(
        all_sections(&result)[0].section_kind(result.source()),
        NumPySectionKind::Attributes
    );
}

#[test]
fn structured_test_methods_section_body_variant() {
    let docstring = "Summary.\n\nMethods\n-------\nfoo()\n    Does bar.\n";
    let result = parse_numpy(docstring);
    let s = &all_sections(&result)[0];
    assert_eq!(s.section_kind(result.source()), NumPySectionKind::Methods);
    let m: Vec<_> = s.methods().iter().collect();
    assert_eq!(m.len(), 1);
}

#[test]
fn test_methods_section_kind() {
    let docstring = "Summary.\n\nMethods\n-------\nfoo()\n    Does bar.\n";
    let result = parse_numpy(docstring);
    assert_eq!(
        all_sections(&result)[0].section_kind(result.source()),
        NumPySectionKind::Methods
    );
}

#[test]
fn test_unknown_section_with_known_sections() {
    let docstring = "Summary.\n\nParameters\n----------\nx : int\n    Value.\n\nCustom\n------\nExtra info.\n";
    let result = parse_numpy(docstring);
    let s = all_sections(&result);
    assert_eq!(s.len(), 2);
    assert_eq!(s[0].section_kind(result.source()), NumPySectionKind::Parameters);
    assert_eq!(s[1].section_kind(result.source()), NumPySectionKind::Unknown);
}

#[test]
fn summary_test_simple_summary() {
    let docstring = "This is a brief summary.";
    let result = parse_numpy(docstring);

    assert_eq!(
        result.summary.as_ref().unwrap().source_text(&result.source),
        "This is a brief summary."
    );
    assert!(result.extended_summary.is_none());
    assert!(parameters(&result).is_empty());
}

#[test]
fn summary_test_parse_simple_span() {
    let docstring = "Brief description.";
    let result = parse_numpy(docstring);
    assert_eq!(
        result.summary.as_ref().unwrap().source_text(&result.source),
        "Brief description."
    );
    assert_eq!(result.summary.as_ref().unwrap().start(), TextSize::new(0));
    assert_eq!(result.summary.as_ref().unwrap().end(), TextSize::new(18));
    assert_eq!(
        result.summary.as_ref().unwrap().source_text(&result.source),
        "Brief description."
    );
}

#[test]
fn summary_test_summary_with_description() {
    let docstring = r#"Brief summary.

This is a longer description that provides
more details about the function.
"#;
    let result = parse_numpy(docstring);

    assert_eq!(
        result.summary.as_ref().unwrap().source_text(&result.source),
        "Brief summary."
    );
    assert!(result.extended_summary.is_some());
}

#[test]
fn summary_test_multiline_summary() {
    let docstring = "This is a long summary\nthat spans two lines.\n\nExtended description.";
    let result = parse_numpy(docstring);
    assert_eq!(
        result.summary.as_ref().unwrap().source_text(&result.source),
        "This is a long summary\nthat spans two lines."
    );
    let desc = result.extended_summary.as_ref().unwrap();
    assert_eq!(desc.source_text(&result.source), "Extended description.");
}

#[test]
fn summary_test_multiline_summary_no_extended() {
    let docstring = "Summary line one\ncontinues here.";
    let result = parse_numpy(docstring);
    assert_eq!(
        result.summary.as_ref().unwrap().source_text(&result.source),
        "Summary line one\ncontinues here."
    );
    assert!(result.extended_summary.is_none());
}

#[test]
fn summary_test_empty_docstring() {
    let result = parse_numpy("");
    assert!(result.summary.is_none());
}

#[test]
fn summary_test_whitespace_only_docstring() {
    let result = parse_numpy("   \n\n   ");
    assert!(result.summary.is_none());
}

#[test]
fn summary_test_docstring_span_covers_entire_input() {
    let docstring = "First line.\n\nSecond line.";
    let result = parse_numpy(docstring);
    assert_eq!(result.range.start(), TextSize::new(0));
    assert_eq!(result.range.end().raw() as usize, docstring.len());
}

#[test]
fn test_parse_with_signature_line() {
    let docstring = r#"add(a, b)

The sum of two numbers.

Parameters
----------
a : int
    First number.
b : int
    Second number.
"#;
    let result = parse_numpy(docstring);
    assert_eq!(
        result.summary.as_ref().unwrap().source_text(&result.source),
        "add(a, b)"
    );
    assert_eq!(parameters(&result).len(), 2);
}

#[test]
fn summary_test_extended_summary_preserves_paragraphs() {
    let docstring = r#"Summary.

First paragraph of extended.

Second paragraph of extended.

Parameters
----------
x : int
    Desc.
"#;
    let result = parse_numpy(docstring);
    let ext = result.extended_summary.as_ref().unwrap();
    assert!(ext.source_text(&result.source).contains("First paragraph"));
    assert!(ext.source_text(&result.source).contains("Second paragraph"));
    assert!(ext.source_text(&result.source).contains('\n'));
}

fn all_sections(doc: &NumPyDocstring) -> Vec<&NumPySection> {
    sections(doc)
}

fn text(doc: &NumPyDocstring, r: TextRange) -> &str {
    r.source_text(&doc.source)
}

fn opt_text(doc: &NumPyDocstring, r: Option<TextRange>) -> Option<&str> {
    r.map(|r| r.source_text(&doc.source))
}

fn summary_text(doc: &NumPyDocstring) -> &str {
    doc.summary.map(|r| r.source_text(&doc.source)).unwrap_or("")
}

// =============================================================================
// Summary, parameters, returns, raises and the other sections
// =============================================================================

#[test]
fn numpy_tests_test_simple_summary() {
    let docstring = "This is a brief summary.";
    let result = parse_numpy(docstring);

    assert_eq!(summary_text(&result), "This is a brief summary.");
    assert!(result.extended_summary.is_none());
    assert!(parameters(&result).is_empty());
}

#[test]
fn numpy_tests_test_parse_simple_span() {
    let docstring = "Brief description.";
    let result = parse_numpy(docstring);
    assert_eq!(summary_text(&result), "Brief description.");
    assert_eq!(result.summary.unwrap().start(), TextSize::new(0));
    assert_eq!(result.summary.unwrap().end(), TextSize::new(18));
    assert_eq!(
        result.summary.unwrap().source_text(&result.source),
        "Brief description."
    );
}

#[test]
fn numpy_tests_test_summary_with_description() {
    let docstring = r#"Brief summary.

This is a longer description that provides
more details about the function.
"#;
    let result = parse_numpy(docstring);

    assert_eq!(summary_text(&result), "Brief summary.");
    assert!(result.extended_summary.is_some());
}

#[test]
fn numpy_tests_test_empty_docstring() {
    let result = parse_numpy("");
    assert_eq!(summary_text(&result), "");
}

#[test]
fn numpy_tests_test_whitespace_only_docstring() {
    let result = parse_numpy("   \n\n   ");
    assert_eq!(summary_text(&result), "");
}

#[test]
fn numpy_tests_test_docstring_span_covers_entire_input() {
    let docstring = "First line.\n\nSecond line.";
    let result = parse_numpy(docstring);
    assert_eq!(result.range.start(), TextSize::new(0));
    assert_eq!(result.range.end().raw() as usize, docstring.len());
}

#[test]
fn numpy_tests_test_extended_summary_preserves_paragraphs() {
    let docstring = r#"Summary.

First paragraph of extended.

Second paragraph of extended.

Parameters
----------
x : int
    Desc.
"#;
    let result = parse_numpy(docstring);
    let ext = text(&result, result.extended_summary.unwrap());
    assert!(ext.contains("First paragraph"));
    assert!(ext.contains("Second paragraph"));
    assert!(ext.contains('\n'));
}

#[test]
fn numpy_tests_test_with_parameters() {
    let docstring = r#"Calculate the sum of two numbers.

Parameters
----------
x : int
    The first number.
y : int
    The second number.

Returns
-------
int
    The sum of x and y.
"#;
    let result = parse_numpy(docstring);

    assert_eq!(summary_text(&result), "Calculate the sum of two numbers.");
    let p = parameters(&result);
    assert_eq!(p.len(), 2);
    assert_eq!(text(&result, p[0].names[0]), "x");
    assert_eq!(opt_text(&result, p[0].ty), Some("int"));
    assert_eq!(opt_text(&result, p[0].description), Some("The first number."));
    assert_eq!(text(&result, p[1].names[0]), "y");
    assert_eq!(opt_text(&result, p[1].ty), Some("int"));
    let r = returns_section(&result);
    assert!(!r.is_empty());
    assert_eq!(opt_text(&result, r[0].return_type), Some("int"));
}

#[test]
fn numpy_tests_test_optional_parameters() {
    let docstring = r#"Function with optional parameters.

Parameters
----------
required : str
    A required parameter.
optional : int, optional
    An optional parameter.
"#;
    let result = parse_numpy(docstring);
    let p = parameters(&result);
    assert_eq!(p.len(), 2);
    assert!(p[0].optional.is_none());
    assert!(p[1].optional.is_some());
    assert_eq!(opt_text(&result, p[1].ty), Some("int"));
}

#[test]
fn numpy_tests_test_parse_with_parameters_spans() {
    let docstring = r#"Brief description.

Parameters
----------
x : int
    The first parameter.
y : str, optional
    The second parameter.
"#;
    let result = parse_numpy(docstring);
    let p = parameters(&result);
    assert_eq!(p.len(), 2);
    assert_eq!(p[0].names[0].source_text(&result.source), "x");
    assert_eq!(p[1].names[0].source_text(&result.source), "y");
    assert_eq!(p[0].ty.unwrap().source_text(&result.source), "int");
}

#[test]
fn numpy_tests_test_multiple_parameter_names() {
    let docstring = r#"Summary.

Parameters
----------
x1, x2 : array_like
    Input arrays.
"#;
    let result = parse_numpy(docstring);
    let p = parameters(&result)[0];
    assert_eq!(p.names.len(), 2);
    assert_eq!(text(&result, p.names[0]), "x1");
    assert_eq!(text(&result, p.names[1]), "x2");
    assert_eq!(p.names[0].source_text(&result.source), "x1");
    assert_eq!(p.names[1].source_text(&result.source), "x2");
}

#[test]
fn numpy_tests_test_description_with_colon_not_treated_as_param() {
    let docstring = r#"Brief summary.

Parameters
----------
x : int
    A value like key: value should not split.
"#;
    let result = parse_numpy(docstring);
    let p = parameters(&result);
    assert_eq!(p.len(), 1);
    assert_eq!(text(&result, p[0].names[0]), "x");
    assert!(opt_text(&result, p[0].description).unwrap().contains("key: value"));
}

#[test]
fn numpy_tests_test_multi_paragraph_description() {
    let docstring = r#"Summary.

Parameters
----------
x : int
    First paragraph of x.

    Second paragraph of x.
"#;
    let result = parse_numpy(docstring);
    let desc = opt_text(&result, parameters(&result)[0].description).unwrap();
    assert!(desc.contains("First paragraph of x."));
    assert!(desc.contains("Second paragraph of x."));
    assert!(desc.contains('\n'));
}

#[test]
fn numpy_tests_test_parse_named_returns() {
    let docstring = r#"Compute values.

Returns
-------
x : int
    The first value.
y : float
    The second value.
"#;
    let result = parse_numpy(docstring);
    let r = returns_section(&result);
    assert_eq!(r.len(), 2);
    assert_eq!(opt_text(&result, r[0].name), Some("x"));
    assert_eq!(opt_text(&result, r[0].return_type), Some("int"));
    assert_eq!(opt_text(&result, r[0].description), Some("The first value."));
    assert_eq!(opt_text(&result, r[1].name), Some("y"));
}

#[test]
fn numpy_tests_test_with_raises() {
    let docstring = r#"Function that may raise exceptions.

Raises
------
ValueError
    If the input is invalid.
TypeError
    If the type is wrong.
"#;
    let result = parse_numpy(docstring);
    let r = raises(&result);
    assert_eq!(r.len(), 2);
    assert_eq!(text(&result, r[0].ty), "ValueError");
    assert_eq!(text(&result, r[1].ty), "TypeError");
}

#[test]
fn numpy_tests_test_raises_with_spans() {
    let docstring = r#"Summary.

Raises
------
ValueError
    If input is bad.
TypeError
    If type is wrong.
"#;
    let result = parse_numpy(docstring);
    let r = raises(&result);
    assert_eq!(r.len(), 2);
    assert_eq!(r[0].ty.source_text(&result.source), "ValueError");
    assert_eq!(r[1].ty.source_text(&result.source), "TypeError");
}

#[test]
fn numpy_tests_test_with_notes_section() {
    let docstring = r#"Function with notes.

Notes
-----
This is an important note about the function.
"#;
    let result = parse_numpy(docstring);
    assert!(notes(&result).is_some());
    assert!(text(&result, *notes(&result).unwrap()).contains("important note"));
}

#[test]
fn numpy_tests_test_see_also_parsing() {
    let docstring = r#"Summary.

See Also
--------
func_a : Does something.
func_b, func_c
"#;
    let result = parse_numpy(docstring);
    let items = see_also(&result);
    assert_eq!(items.len(), 2);
    assert_eq!(text(&result, items[0].names[0]), "func_a");
    assert_eq!(opt_text(&result, items[0].description), Some("Does something."));
    assert_eq!(items[1].names.len(), 2);
    assert_eq!(text(&result, items[1].names[0]), "func_b");
    assert_eq!(text(&result, items[1].names[1]), "func_c");
}

#[test]
fn numpy_tests_test_references_parsing() {
    let docstring = r#"Summary.

References
----------
.. [1] Author A, "Title A", 2020.
.. [2] Author B, "Title B", 2021.
"#;
    let result = parse_numpy(docstring);
    let refs = references(&result);
    assert_eq!(refs.len(), 2);
    assert_eq!(opt_text(&result, refs[0].number), Some("1"));
    assert!(opt_text(&result, refs[0].content).unwrap().contains("Author A"));
    assert_eq!(opt_text(&result, refs[1].number), Some("2"));
    assert!(opt_text(&result, refs[1].content).unwrap().contains("Author B"));
}

#[test]
fn numpy_tests_test_case_insensitive_sections() {
    let docstring = r#"Brief summary.

parameters
----------
x : int
    First param.

returns
-------
int
    The result.

NOTES
-----
Some notes here.
"#;
    let result = parse_numpy(docstring);
    assert_eq!(parameters(&result).len(), 1);
    assert_eq!(text(&result, parameters(&result)[0].names[0]), "x");
    assert_eq!(returns_section(&result).len(), 1);
    assert!(notes(&result).is_some());
    // The header keeps its text as written
    let s = sections(&result);
    assert_eq!(text(&result, s[0].header.name), "parameters");
    assert_eq!(text(&result, s[2].header.name), "NOTES");
}

#[test]
fn numpy_tests_test_section_header_spans() {
    let docstring = r#"Summary.

Parameters
----------
x : int
    Desc.
"#;
    let result = parse_numpy(docstring);
    let hdr = &sections(&result)[0].header;
    assert_eq!(hdr.name.source_text(&result.source), "Parameters");
    assert_eq!(hdr.underline.source_text(&result.source), "----------");
}

#[test]
fn numpy_tests_test_span_source_text_round_trip() {
    let docstring = r#"Summary line.

Parameters
----------
x : int
    Description of x.
"#;
    let result = parse_numpy(docstring);
    let src = &result.source;
    assert_eq!(result.summary.unwrap().source_text(src), "Summary line.");
    let s = sections(&result);
    assert_eq!(s[0].header.name.source_text(src), "Parameters");
    let underline = s[0].header.underline.source_text(src);
    assert!(underline.chars().all(|c| c == '-'));
    let p = parameters(&result)[0];
    assert_eq!(p.names[0].source_text(src), "x");
    assert_eq!(p.ty.unwrap().source_text(src), "int");
    assert_eq!(p.description.unwrap().source_text(src), "Description of x.");
}

#[test]
fn numpy_tests_test_deprecation_directive() {
    let docstring = r#"Summary.

.. deprecated:: 1.6.0
    Use `new_func` instead.

Parameters
----------
x : int
    Desc.
"#;
    let result = parse_numpy(docstring);
    let dep = result
        .deprecation
        .as_ref()
        .expect("deprecation should be parsed");
    assert_eq!(text(&result, dep.version), "1.6.0");
    assert_eq!(text(&result, dep.description), "Use `new_func` instead.");
    assert_eq!(dep.version.source_text(&result.source), "1.6.0");
}

#[test]
fn numpy_tests_test_indented_docstring() {
    let docstring = "    Summary line.\n\n    Parameters\n    ----------\n    x : int\n        Description of x.\n    y : str, optional\n        Description of y.\n\n    Returns\n    -------\n    bool\n        The result.\n";
    let result = parse_numpy(docstring);

    assert_eq!(summary_text(&result), "Summary line.");
    let p = parameters(&result);
    assert_eq!(p.len(), 2);
    assert_eq!(text(&result, p[0].names[0]), "x");
    assert_eq!(opt_text(&result, p[0].ty), Some("int"));
    assert_eq!(text(&result, p[1].names[0]), "y");
    assert!(p[1].optional.is_some());
    let r = returns_section(&result);
    assert_eq!(r.len(), 1);
    assert_eq!(opt_text(&result, r[0].return_type), Some("bool"));
    // Spans point to correct positions in indented source
    assert_eq!(
        result.summary.unwrap().source_text(&result.source),
        "Summary line."
    );
    assert_eq!(p[0].names[0].source_text(&result.source), "x");
}

#[test]
fn numpy_tests_test_deeply_indented_docstring() {
    let docstring = "        Brief.\n\n        Parameters\n        ----------\n        a : float\n            The value.\n\n        Raises\n        ------\n        ValueError\n            If bad.\n";
    let result = parse_numpy(docstring);

    assert_eq!(summary_text(&result), "Brief.");
    assert_eq!(parameters(&result).len(), 1);
    assert_eq!(text(&result, parameters(&result)[0].names[0]), "a");
    assert_eq!(raises(&result).len(), 1);
    assert_eq!(text(&result, raises(&result)[0].ty), "ValueError");
    assert_eq!(
        raises(&result)[0].ty.source_text(&result.source),
        "ValueError"
    );
}

#[test]
fn numpy_tests_test_indented_with_deprecation() {
    let docstring = "    Summary.\n\n    .. deprecated:: 2.0.0\n        Use new_func instead.\n\n    Parameters\n    ----------\n    x : int\n        Desc.\n";
    let result = parse_numpy(docstring);

    assert_eq!(summary_text(&result), "Summary.");
    let dep = result
        .deprecation
        .as_ref()
        .expect("should have deprecation");
    assert_eq!(text(&result, dep.version), "2.0.0");
    assert!(text(&result, dep.description).contains("new_func"));
    assert_eq!(parameters(&result).len(), 1);
    assert_eq!(text(&result, parameters(&result)[0].names[0]), "x");
}

#[test]
fn numpy_tests_test_mixed_indent_first_line() {
    let docstring =
        "Summary.\n\n    Parameters\n    ----------\n    x : int\n        Description.\n";
    let result = parse_numpy(docstring);

    assert_eq!(summary_text(&result), "Summary.");
    let p = parameters(&result);
    assert_eq!(p.len(), 1);
    assert_eq!(text(&result, p[0].names[0]), "x");
    assert_eq!(opt_text(&result, p[0].description), Some("Description."));
}

// =============================================================================
// Parser entry points
// =============================================================================

#[test]
fn test_parse_simple_numpy() {
    let docstring = "Brief description.";
    let result = parse_numpy(docstring);
    assert_eq!(summary_text(&result), "Brief description.");
}

#[test]
fn test_parse_with_parameters() {
    let docstring = r#"Brief description.

Parameters
----------
x : int
    The first parameter.
y : str, optional
    The second parameter.
"#;
    let result = parse_numpy(docstring);
    assert_eq!(summary_text(&result), "Brief description.");
    let p = parameters(&result);
    assert_eq!(p.len(), 2);
    assert_eq!(text(&result, p[0].names[0]), "x");
    assert_eq!(opt_text(&result, p[0].ty), Some("int"));
    assert!(p[0].optional.is_none());
    assert_eq!(text(&result, p[1].names[0]), "y");
    assert!(p[1].optional.is_some());
}

#[test]
fn numpy_test_parse_named_returns() {
    let docstring = r#"Compute values.

Returns
-------
x : int
    The first value.
y : float
    The second value.
"#;
    let result = parse_numpy(docstring);
    let r = returns_section(&result);
    assert_eq!(r.len(), 2);
    assert_eq!(opt_text(&result, r[0].name), Some("x"));
    assert_eq!(opt_text(&result, r[0].return_type), Some("int"));
    assert_eq!(opt_text(&result, r[0].description), Some("The first value."));
    assert_eq!(opt_text(&result, r[1].name), Some("y"));
}

#[test]
fn numpy_test_description_with_colon_not_treated_as_param() {
    let docstring = r#"Brief summary.

Parameters
----------
x : int
    A value like key: value should not split.
"#;
    let result = parse_numpy(docstring);
    let p = parameters(&result);
    assert_eq!(p.len(), 1);
    assert_eq!(text(&result, p[0].names[0]), "x");
    assert!(opt_text(&result, p[0].description).unwrap().contains("key: value"));
}

#[test]
fn numpy_test_case_insensitive_sections() {
    let docstring = r#"Brief summary.

parameters
----------
x : int
    First param.

returns
-------
int
    The result.

NOTES
-----
Some notes here.
"#;
    let result = parse_numpy(docstring);
    assert_eq!(parameters(&result).len(), 1);
    assert_eq!(text(&result, parameters(&result)[0].names[0]), "x");
    assert_eq!(returns_section(&result).len(), 1);
    assert!(notes(&result).is_some());
    // The header keeps its text as written
    let s = sections(&result);
    assert_eq!(text(&result, s[0].header.name), "parameters");
    assert_eq!(text(&result, s[2].header.name), "NOTES");
}
