//! The style-agnostic parameter views of parsed docstrings.

use pydocstring::google::parse_google;
use pydocstring::numpy::parse_numpy;
use pydocstring::{parse, Style, TextRange};

fn slice(src: &str, r: TextRange) -> &str {
    &src[r.start.0 as usize..r.end.0 as usize]
}

#[test]
fn parse_reports_numpy_parameters() {
    let input = "Summary.\n\nParameters\n----------\nx : int\n    The value.";
    let result = parse(input);
    let doc = &result.value;
    assert_eq!(doc.style(), Style::NumPy);
    assert_eq!(doc.summary(), "Summary.");
    let params = doc.parameters();
    assert_eq!(params.len(), 1);
    assert_eq!(slice(input, params[0].name), "x");
    assert_eq!(slice(input, params[0].param_type.unwrap()), "int");
    assert_eq!(slice(input, params[0].description.unwrap()), "The value.");
    assert!(params[0].optional.is_none());
}

#[test]
fn numpy_parameters_one_per_name() {
    let input = "S.\n\nParameters\n----------\nx, y : float, optional\n    Coordinates.\nz : int\n    Depth.\n\nReturns\n-------\nint\n    R.";
    let doc = parse_numpy(input);
    let params = doc.parameters();
    assert_eq!(params.len(), 3);
    assert_eq!(slice(input, params[0].name), "x");
    assert_eq!(slice(input, params[1].name), "y");
    assert_eq!(slice(input, params[2].name), "z");
    assert_eq!(params[0].range, params[1].range);
    assert_eq!(slice(input, params[1].param_type.unwrap()), "float");
    assert_eq!(slice(input, params[1].optional.unwrap()), "optional");
    assert_eq!(slice(input, params[2].description.unwrap()), "Depth.");
}

#[test]
fn google_parameters_are_args_entries() {
    let input = "S.\n\nArgs:\n    a (int): First.\n    b: Second.\n\nKeyword Args:\n    c: Not a parameter here.\n\nArgs:\n    d (str, optional): Fourth.";
    let doc = parse_google(input);
    let params = doc.parameters();
    assert_eq!(params.len(), 3);
    assert_eq!(slice(input, params[0].name), "a");
    assert_eq!(slice(input, params[0].param_type.unwrap()), "int");
    assert_eq!(slice(input, params[1].name), "b");
    assert!(params[1].param_type.is_none());
    assert_eq!(slice(input, params[1].description.unwrap()), "Second.");
    assert_eq!(slice(input, params[2].name), "d");
    assert_eq!(slice(input, params[2].optional.unwrap()), "optional");
    assert_eq!(slice(input, params[2].range), "d (str, optional): Fourth.");
}

#[test]
fn google_parameters_through_parse() {
    let input = "Summary.\n\nArgs:\n    x (Dict[str,\n            int]): The value.";
    let result = parse(input);
    assert_eq!(result.value.style(), Style::Google);
    let params = result.value.parameters();
    assert_eq!(params.len(), 1);
    assert_eq!(slice(input, params[0].param_type.unwrap()), "Dict[str,\n            int]");
}

#[test]
fn summary_only_docstring_has_no_parameters() {
    let result = parse("Brief summary.");
    assert!(result.value.parameters().is_empty());
}
