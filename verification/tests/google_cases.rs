//! Google-style parsing scenarios.

use pydocstring::google::parse_google;
use pydocstring::google::{
    GoogleArg, GoogleAttribute, GoogleDocstring, GoogleDocstringItem, GoogleException,
    GoogleMethod, GoogleReturns, GoogleSection, GoogleSeeAlsoItem, GoogleWarning,
};
use pydocstring::{GoogleSectionBody, GoogleSectionKind, LineIndex, TextSize};

// =============================================================================
// Shared helpers
// =============================================================================

fn all_sections(doc: &GoogleDocstring) -> Vec<&GoogleSection> {
    doc.items
        .iter()
        .filter_map(|item| match item {
            GoogleDocstringItem::Section(s) => Some(s),
            _ => None,
        })
        .collect()
}

fn args(doc: &GoogleDocstring) -> Vec<&GoogleArg> {
    doc.items
        .iter()
        .filter_map(|item| match item {
            GoogleDocstringItem::Section(s) => match &s.body {
                GoogleSectionBody::Args(v) => Some(v.iter()),
                _ => None,
            },
            _ => None,
        })
        .flatten()
        .collect()
}

fn returns_section(doc: &GoogleDocstring) -> Option<&GoogleReturns> {
    doc.items.iter().find_map(|item| match item {
        GoogleDocstringItem::Section(s) => match &s.body {
            GoogleSectionBody::Returns(r) => Some(r),
            _ => None,
        },
        _ => None,
    })
}

fn yields(doc: &GoogleDocstring) -> Option<&GoogleReturns> {
    doc.items.iter().find_map(|item| match item {
        GoogleDocstringItem::Section(s) => match &s.body {
            GoogleSectionBody::Yields(r) => Some(r),
            _ => None,
        },
        _ => None,
    })
}

fn raises(doc: &GoogleDocstring) -> Vec<&GoogleException> {
    doc.items
        .iter()
        .filter_map(|item| match item {
            GoogleDocstringItem::Section(s) => match &s.body {
                GoogleSectionBody::Raises(v) => Some(v.iter()),
                _ => None,
            },
            _ => None,
        })
        .flatten()
        .collect()
}

fn attributes(doc: &GoogleDocstring) -> Vec<&GoogleAttribute> {
    doc.items
        .iter()
        .filter_map(|item| match item {
            GoogleDocstringItem::Section(s) => match &s.body {
                GoogleSectionBody::Attributes(v) => Some(v.iter()),
                _ => None,
            },
            _ => None,
        })
        .flatten()
        .collect()
}

fn keyword_args(doc: &GoogleDocstring) -> Vec<&GoogleArg> {
    doc.items
        .iter()
        .filter_map(|item| match item {
            GoogleDocstringItem::Section(s) => match &s.body {
                GoogleSectionBody::KeywordArgs(v) => Some(v.iter()),
                _ => None,
            },
            _ => None,
        })
        .flatten()
        .collect()
}

fn other_parameters(doc: &GoogleDocstring) -> Vec<&GoogleArg> {
    doc.items
        .iter()
        .filter_map(|item| match item {
            GoogleDocstringItem::Section(s) => match &s.body {
                GoogleSectionBody::OtherParameters(v) => Some(v.iter()),
                _ => None,
            },
            _ => None,
        })
        .flatten()
        .collect()
}

fn receives(doc: &GoogleDocstring) -> Vec<&GoogleArg> {
    doc.items
        .iter()
        .filter_map(|item| match item {
            GoogleDocstringItem::Section(s) => match &s.body {
                GoogleSectionBody::Receives(v) => Some(v.iter()),
                _ => None,
            },
            _ => None,
        })
        .flatten()
        .collect()
}

fn warns(doc: &GoogleDocstring) -> Vec<&GoogleWarning> {
    doc.items
        .iter()
        .filter_map(|item| match item {
            GoogleDocstringItem::Section(s) => match &s.body {
                GoogleSectionBody::Warns(v) => Some(v.iter()),
                _ => None,
            },
            _ => None,
        })
        .flatten()
        .collect()
}

fn see_also(doc: &GoogleDocstring) -> Vec<&GoogleSeeAlsoItem> {
    doc.items
        .iter()
        .filter_map(|item| match item {
            GoogleDocstringItem::Section(s) => match &s.body {
                GoogleSectionBody::SeeAlso(v) => Some(v.iter()),
                _ => None,
            },
            _ => None,
        })
        .flatten()
        .collect()
}

fn methods(doc: &GoogleDocstring) -> Vec<&GoogleMethod> {
    doc.items
        .iter()
        .filter_map(|item| match item {
            GoogleDocstringItem::Section(s) => match &s.body {
                GoogleSectionBody::Methods(v) => Some(v.iter()),
                _ => None,
            },
            _ => None,
        })
        .flatten()
        .collect()
}

fn notes(doc: &GoogleDocstring) -> Option<&pydocstring::TextRange> {
    doc.items
        .iter()
        .filter_map(|item| match item {
            GoogleDocstringItem::Section(s) => Some(s),
            _ => None,
        })
        .find_map(|s| match &s.body {
            GoogleSectionBody::Notes(v) => Some(v),
            _ => None,
        })
}

fn examples(doc: &GoogleDocstring) -> Option<&pydocstring::TextRange> {
    doc.items
        .iter()
        .filter_map(|item| match item {
            GoogleDocstringItem::Section(s) => Some(s),
            _ => None,
        })
        .find_map(|s| match &s.body {
            GoogleSectionBody::Examples(v) => Some(v),
            _ => None,
        })
}

fn todo(doc: &GoogleDocstring) -> Option<&pydocstring::TextRange> {
    doc.items
        .iter()
        .filter_map(|item| match item {
            GoogleDocstringItem::Section(s) => Some(s),
            _ => None,
        })
        .find_map(|s| match &s.body {
            GoogleSectionBody::Todo(v) => Some(v),
            _ => None,
        })
}

fn references(doc: &GoogleDocstring) -> Option<&pydocstring::TextRange> {
    doc.items
        .iter()
        .filter_map(|item| match item {
            GoogleDocstringItem::Section(s) => Some(s),
            _ => None,
        })
        .find_map(|s| match &s.body {
            GoogleSectionBody::References(v) => Some(v),
            _ => None,
        })
}

fn warnings(doc: &GoogleDocstring) -> Option<&pydocstring::TextRange> {
    doc.items
        .iter()
        .filter_map(|item| match item {
            GoogleDocstringItem::Section(s) => Some(s),
            _ => None,
        })
        .find_map(|s| match &s.body {
            GoogleSectionBody::Warnings(v) => Some(v),
            _ => None,
        })
}

#[test]
fn args_test_args_basic() {
    let docstring = "Summary.\n\nArgs:\n    x (int): The value.";
    let result = parse_google(docstring);
    let a = args(&result);
    assert_eq!(a.len(), 1);
    assert_eq!(a[0].name.source_text(&result.source), "x");
    assert_eq!(
        a[0].ty.as_ref().unwrap().source_text(&result.source),
        "int"
    );
    assert_eq!(
        a[0].description
            .source_text(&result.source),
        "The value."
    );
}

#[test]
fn args_test_args_multiple() {
    let docstring = "Summary.\n\nArgs:\n    x (int): First.\n    y (str): Second.";
    let result = parse_google(docstring);
    let a = args(&result);
    assert_eq!(a.len(), 2);
    assert_eq!(a[0].name.source_text(&result.source), "x");
    assert_eq!(
        a[0].ty.as_ref().unwrap().source_text(&result.source),
        "int"
    );
    assert_eq!(a[1].name.source_text(&result.source), "y");
    assert_eq!(
        a[1].ty.as_ref().unwrap().source_text(&result.source),
        "str"
    );
}

#[test]
fn args_test_args_no_type() {
    let docstring = "Summary.\n\nArgs:\n    x: The value.";
    let result = parse_google(docstring);
    let a = args(&result);
    assert_eq!(a[0].name.source_text(&result.source), "x");
    assert!(a[0].ty.is_none());
    assert_eq!(
        a[0].description
            .source_text(&result.source),
        "The value."
    );
}

#[test]
fn args_test_args_no_space_after_colon() {
    let docstring = "Summary.\n\nArgs:\n    x:The value.";
    let result = parse_google(docstring);
    let a = args(&result);
    assert_eq!(a[0].name.source_text(&result.source), "x");
    assert_eq!(
        a[0].description
            .source_text(&result.source),
        "The value."
    );
}

#[test]
fn args_test_args_extra_spaces_after_colon() {
    let docstring = "Summary.\n\nArgs:\n    x:   The value.";
    let result = parse_google(docstring);
    let a = args(&result);
    assert_eq!(a[0].name.source_text(&result.source), "x");
    assert_eq!(
        a[0].description
            .source_text(&result.source),
        "The value."
    );
}

#[test]
fn args_test_args_optional() {
    let docstring = "Summary.\n\nArgs:\n    x (int, optional): The value.";
    let result = parse_google(docstring);
    let a = args(&result);
    assert_eq!(a[0].name.source_text(&result.source), "x");
    assert_eq!(
        a[0].ty.as_ref().unwrap().source_text(&result.source),
        "int"
    );
    assert!(a[0].optional.is_some());
}

#[test]
fn args_test_args_complex_type() {
    let docstring = "Summary.\n\nArgs:\n    data (Dict[str, List[int]]): The data.";
    let result = parse_google(docstring);
    assert_eq!(
        args(&result)[0]
            .ty
            .as_ref()
            .unwrap()
            .source_text(&result.source),
        "Dict[str, List[int]]"
    );
}

#[test]
fn args_test_args_tuple_type() {
    let docstring = "Summary.\n\nArgs:\n    pair (Tuple[int, str]): A pair of values.";
    let result = parse_google(docstring);
    assert_eq!(
        args(&result)[0]
            .ty
            .as_ref()
            .unwrap()
            .source_text(&result.source),
        "Tuple[int, str]"
    );
}

#[test]
fn args_test_args_multiline_description() {
    let docstring =
        "Summary.\n\nArgs:\n    x (int): First line.\n        Second line.\n        Third line.";
    let result = parse_google(docstring);
    assert_eq!(
        args(&result)[0]
            .description
            .source_text(&result.source),
        "First line.\n        Second line.\n        Third line."
    );
}

#[test]
fn args_test_args_description_on_next_line() {
    let docstring = "Summary.\n\nArgs:\n    x (int):\n        The description.";
    let result = parse_google(docstring);
    let a = args(&result);
    assert_eq!(a[0].name.source_text(&result.source), "x");
    assert_eq!(
        a[0].ty.as_ref().unwrap().source_text(&result.source),
        "int"
    );
    assert_eq!(
        a[0].description
            .source_text(&result.source),
        "The description."
    );
}

#[test]
fn args_test_args_varargs() {
    let docstring = "Summary.\n\nArgs:\n    *args: Positional args.\n    **kwargs: Keyword args.";
    let result = parse_google(docstring);
    let a = args(&result);
    assert_eq!(a.len(), 2);
    assert_eq!(a[0].name.source_text(&result.source), "*args");
    assert_eq!(
        a[0].description
            .source_text(&result.source),
        "Positional args."
    );
    assert_eq!(a[1].name.source_text(&result.source), "**kwargs");
    assert_eq!(
        a[1].description
            .source_text(&result.source),
        "Keyword args."
    );
}

#[test]
fn args_test_args_kwargs_with_type() {
    let docstring = "Summary.\n\nArgs:\n    **kwargs (dict): Keyword arguments.";
    let result = parse_google(docstring);
    let a = args(&result);
    assert_eq!(a[0].name.source_text(&result.source), "**kwargs");
    assert_eq!(
        a[0].ty.as_ref().unwrap().source_text(&result.source),
        "dict"
    );
}

#[test]
fn args_test_arguments_alias() {
    let docstring = "Summary.\n\nArguments:\n    x (int): The value.";
    let result = parse_google(docstring);
    let a = args(&result);
    assert_eq!(a.len(), 1);
    assert_eq!(a[0].name.source_text(&result.source), "x");
}

#[test]
fn args_test_parameters_alias() {
    let docstring = "Summary.\n\nParameters:\n    x (int): The value.";
    let result = parse_google(docstring);
    assert_eq!(args(&result).len(), 1);
    assert_eq!(args(&result)[0].name.source_text(&result.source), "x");
    assert_eq!(
        all_sections(&result)
            .into_iter()
            .next()
            .unwrap()
            .header
            .name
            .source_text(&result.source),
        "Parameters"
    );
}

#[test]
fn args_test_params_alias() {
    let docstring = "Summary.\n\nParams:\n    x (int): The value.";
    let result = parse_google(docstring);
    assert_eq!(args(&result).len(), 1);
    assert_eq!(
        all_sections(&result)
            .into_iter()
            .next()
            .unwrap()
            .header
            .name
            .source_text(&result.source),
        "Params"
    );
}

#[test]
fn args_test_args_name_span() {
    let docstring = "Summary.\n\nArgs:\n    x (int): Value.";
    let result = parse_google(docstring);
    let arg = &args(&result)[0];
    let index = LineIndex::from_source(&result.source);
    let (line, col) = index.line_col(arg.name.start());
    assert_eq!(line, 3);
    assert_eq!(col, 4);
    assert_eq!(arg.name.end(), TextSize::new(arg.name.start().raw() + 1));
    assert_eq!(arg.name.source_text(&result.source), "x");
}

#[test]
fn args_test_args_type_span() {
    let docstring = "Summary.\n\nArgs:\n    x (int): Value.";
    let result = parse_google(docstring);
    let arg = &args(&result)[0];
    let type_span = arg.ty.as_ref().unwrap();
    let index = LineIndex::from_source(&result.source);
    let (line, _col) = index.line_col(type_span.start());
    assert_eq!(line, 3);
    assert_eq!(type_span.source_text(&result.source), "int");
}

#[test]
fn args_test_args_optional_span() {
    let docstring = "Summary.\n\nArgs:\n    x (int, optional): Value.";
    let result = parse_google(docstring);
    let opt_span = args(&result)[0].optional.as_ref().unwrap();
    assert_eq!(opt_span.source_text(&result.source), "optional");
}

#[test]
fn args_test_args_square_bracket_type() {
    let docstring = "Summary.\n\nArgs:\n    x [int]: The value.";
    let result = parse_google(docstring);
    let a = &args(&result)[0];
    assert_eq!(a.name.source_text(&result.source), "x");
    assert_eq!(
        a.ty.as_ref().unwrap().source_text(&result.source),
        "int"
    );
    assert_eq!(
        a.open_bracket.as_ref().unwrap().source_text(&result.source),
        "["
    );
    assert_eq!(
        a.close_bracket
            .as_ref()
            .unwrap()
            .source_text(&result.source),
        "]"
    );
    assert_eq!(
        a.description.source_text(&result.source),
        "The value."
    );
}

#[test]
fn args_test_args_curly_bracket_type() {
    let docstring = "Summary.\n\nArgs:\n    x {int}: The value.";
    let result = parse_google(docstring);
    let a = &args(&result)[0];
    assert_eq!(a.name.source_text(&result.source), "x");
    assert_eq!(
        a.ty.as_ref().unwrap().source_text(&result.source),
        "int"
    );
    assert_eq!(
        a.open_bracket.as_ref().unwrap().source_text(&result.source),
        "{"
    );
    assert_eq!(
        a.close_bracket
            .as_ref()
            .unwrap()
            .source_text(&result.source),
        "}"
    );
    assert_eq!(
        a.description.source_text(&result.source),
        "The value."
    );
}

#[test]
fn args_test_args_paren_bracket_spans() {
    let docstring = "Summary.\n\nArgs:\n    x (int): The value.";
    let result = parse_google(docstring);
    let a = &args(&result)[0];
    assert_eq!(
        a.open_bracket.as_ref().unwrap().source_text(&result.source),
        "("
    );
    assert_eq!(
        a.open_bracket.as_ref().unwrap().source_text(&result.source),
        "("
    );
    assert_eq!(
        a.close_bracket
            .as_ref()
            .unwrap()
            .source_text(&result.source),
        ")"
    );
    assert_eq!(
        a.close_bracket
            .as_ref()
            .unwrap()
            .source_text(&result.source),
        ")"
    );
}

#[test]
fn args_test_args_no_bracket_fields_when_no_type() {
    let docstring = "Summary.\n\nArgs:\n    x: The value.";
    let result = parse_google(docstring);
    let a = &args(&result)[0];
    assert!(a.open_bracket.is_none());
    assert!(a.close_bracket.is_none());
    assert!(a.ty.is_none());
}

#[test]
fn args_test_args_square_bracket_optional() {
    let docstring = "Summary.\n\nArgs:\n    x [int, optional]: The value.";
    let result = parse_google(docstring);
    let a = &args(&result)[0];
    assert_eq!(a.name.source_text(&result.source), "x");
    assert_eq!(
        a.ty.as_ref().unwrap().source_text(&result.source),
        "int"
    );
    assert_eq!(
        a.open_bracket.as_ref().unwrap().source_text(&result.source),
        "["
    );
    assert_eq!(
        a.close_bracket
            .as_ref()
            .unwrap()
            .source_text(&result.source),
        "]"
    );
    assert!(a.optional.is_some());
}

#[test]
fn args_test_args_square_bracket_complex_type() {
    let docstring = "Summary.\n\nArgs:\n    items [List[int]]: The items.";
    let result = parse_google(docstring);
    let a = &args(&result)[0];
    assert_eq!(a.name.source_text(&result.source), "items");
    assert_eq!(
        a.ty.as_ref().unwrap().source_text(&result.source),
        "List[int]"
    );
    assert_eq!(
        a.open_bracket.as_ref().unwrap().source_text(&result.source),
        "["
    );
    assert_eq!(
        a.close_bracket
            .as_ref()
            .unwrap()
            .source_text(&result.source),
        "]"
    );
}

#[test]
fn args_test_args_angle_bracket_type() {
    let docstring = "Summary.\n\nArgs:\n    x <int>: The value.";
    let result = parse_google(docstring);
    let a = &args(&result)[0];
    assert_eq!(a.name.source_text(&result.source), "x");
    assert_eq!(
        a.ty.as_ref().unwrap().source_text(&result.source),
        "int"
    );
    assert_eq!(
        a.open_bracket.as_ref().unwrap().source_text(&result.source),
        "<"
    );
    assert_eq!(
        a.close_bracket
            .as_ref()
            .unwrap()
            .source_text(&result.source),
        ">"
    );
    assert_eq!(
        a.description.source_text(&result.source),
        "The value."
    );
}

#[test]
fn args_test_optional_only_in_parens() {
    let docstring = "Summary.\n\nArgs:\n    x (optional): Value.";
    let result = parse_google(docstring);
    let a = args(&result);
    assert_eq!(a[0].name.source_text(&result.source), "x");
    assert!(a[0].ty.is_none());
    assert!(a[0].optional.is_some());
}

#[test]
fn args_test_complex_optional_type() {
    let docstring = "Summary.\n\nArgs:\n    x (List[int], optional): Values.";
    let result = parse_google(docstring);
    let a = args(&result);
    assert_eq!(
        a[0].ty.as_ref().unwrap().source_text(&result.source),
        "List[int]"
    );
    assert!(a[0].optional.is_some());
}

#[test]
fn args_test_keyword_args_basic() {
    let docstring = "Summary.\n\nKeyword Args:\n    timeout (int): Timeout in seconds.\n    retries (int): Number of retries.";
    let result = parse_google(docstring);
    let ka = keyword_args(&result);
    assert_eq!(ka.len(), 2);
    assert_eq!(ka[0].name.source_text(&result.source), "timeout");
    assert_eq!(
        ka[0].ty.as_ref().unwrap().source_text(&result.source),
        "int"
    );
    assert_eq!(ka[1].name.source_text(&result.source), "retries");
}

#[test]
fn args_test_keyword_arguments_alias() {
    let docstring = "Summary.\n\nKeyword Arguments:\n    key (str): The key.";
    let result = parse_google(docstring);
    assert_eq!(keyword_args(&result).len(), 1);
    assert_eq!(
        all_sections(&result)
            .into_iter()
            .next()
            .unwrap()
            .header
            .name
            .source_text(&result.source),
        "Keyword Arguments"
    );
}

#[test]
fn args_test_keyword_args_section_body_variant() {
    let docstring = "Summary.\n\nKeyword Args:\n    k (str): Key.";
    let result = parse_google(docstring);
    match &all_sections(&result).into_iter().next().unwrap().body {
        GoogleSectionBody::KeywordArgs(args) => {
            assert_eq!(args.len(), 1);
        }
        _ => panic!("Expected KeywordArgs section body"),
    }
}

#[test]
fn args_test_other_parameters() {
    let docstring = "Summary.\n\nOther Parameters:\n    debug (bool): Enable debug mode.\n    verbose (bool, optional): Verbose output.";
    let result = parse_google(docstring);
    let op = other_parameters(&result);
    assert_eq!(op.len(), 2);
    assert_eq!(op[0].name.source_text(&result.source), "debug");
    assert_eq!(op[1].name.source_text(&result.source), "verbose");
    assert!(op[1].optional.is_some());
}

#[test]
fn args_test_other_parameters_section_body_variant() {
    let docstring = "Summary.\n\nOther Parameters:\n    x (int): Extra.";
    let result = parse_google(docstring);
    match &all_sections(&result).into_iter().next().unwrap().body {
        GoogleSectionBody::OtherParameters(args) => {
            assert_eq!(args.len(), 1);
        }
        _ => panic!("Expected OtherParameters section body"),
    }
}

#[test]
fn args_test_receives() {
    let docstring = "Summary.\n\nReceives:\n    data (bytes): The received data.";
    let result = parse_google(docstring);
    let r = receives(&result);
    assert_eq!(r.len(), 1);
    assert_eq!(r[0].name.source_text(&result.source), "data");
    assert_eq!(
        r[0].ty.as_ref().unwrap().source_text(&result.source),
        "bytes"
    );
}

#[test]
fn args_test_receive_alias() {
    let docstring = "Summary.\n\nReceive:\n    msg (str): The message.";
    let result = parse_google(docstring);
    assert_eq!(receives(&result).len(), 1);
    assert_eq!(
        all_sections(&result)
            .into_iter()
            .next()
            .unwrap()
            .header
            .name
            .source_text(&result.source),
        "Receive"
    );
}

#[test]
fn args_test_docstring_like_parameters() {
    let docstring = "Summary.\n\nArgs:\n    x (int): Value.\n    y (str): Name.";
    let result = parse_google(docstring);
    let params = args(&result);
    assert_eq!(params.len(), 2);
    assert_eq!(params[0].name.source_text(&result.source), "x");
    assert_eq!(
        params[0]
            .ty
            .as_ref()
            .unwrap()
            .source_text(&result.source),
        "int"
    );
    assert_eq!(params[1].name.source_text(&result.source), "y");
}

#[test]
fn edge_cases_test_unknown_name_without_colon_not_header() {
    let input = "Summary.\n\nSomeWord\n    x (int): value.";
    let result = parse_google(input);
    assert!(
        all_sections(&result).is_empty(),
        "unknown colonless name should not become a section"
    );
}

#[test]
fn edge_cases_test_mixed_colon_styles() {
    let input = "Summary.\n\nArgs:\n    x: value.\n\nReturns\n    int: result.\n\nRaises :\n    ValueError: If bad.";
    let result = parse_google(input);
    assert_eq!(args(&result).len(), 1);
    assert!(returns_section(&result).is_some());
    assert_eq!(raises(&result).len(), 1);
}

#[test]
fn freetext_test_examples_alias() {
    let docstring = "Summary.\n\nExamples:\n    >>> 1 + 1\n    2";
    let result = parse_google(docstring);
    assert!(examples(&result).is_some());
}

#[test]
fn freetext_test_references_section() {
    let docstring = "Summary.\n\nReferences:\n    Author, Title, 2024.";
    let result = parse_google(docstring);
    assert!(references(&result).is_some());
}

#[test]
fn raises_test_raises_single() {
    let docstring = "Summary.\n\nRaises:\n    ValueError: If the input is invalid.";
    let result = parse_google(docstring);
    let r = raises(&result);
    assert_eq!(r.len(), 1);
    assert_eq!(r[0].ty.source_text(&result.source), "ValueError");
    assert_eq!(
        r[0].description
            .source_text(&result.source),
        "If the input is invalid."
    );
}

#[test]
fn raises_test_raises_multiple() {
    let docstring =
        "Summary.\n\nRaises:\n    ValueError: If invalid.\n    TypeError: If wrong type.";
    let result = parse_google(docstring);
    let r = raises(&result);
    assert_eq!(r.len(), 2);
    assert_eq!(r[0].ty.source_text(&result.source), "ValueError");
    assert_eq!(r[1].ty.source_text(&result.source), "TypeError");
}

#[test]
fn raises_test_raises_multiline_description() {
    let docstring = "Summary.\n\nRaises:\n    ValueError: If the\n        input is invalid.";
    let result = parse_google(docstring);
    assert_eq!(
        raises(&result)[0]
            .description
            .source_text(&result.source),
        "If the\n        input is invalid."
    );
}

#[test]
fn raises_test_raises_exception_type_span() {
    let docstring = "Summary.\n\nRaises:\n    ValueError: If bad.";
    let result = parse_google(docstring);
    assert_eq!(
        raises(&result)[0].ty.source_text(&result.source),
        "ValueError"
    );
}

#[test]
fn raises_test_raises_no_space_after_colon() {
    let docstring = "Summary.\n\nRaises:\n    ValueError:If invalid.";
    let result = parse_google(docstring);
    let r = raises(&result);
    assert_eq!(r[0].ty.source_text(&result.source), "ValueError");
    assert_eq!(
        r[0].description
            .source_text(&result.source),
        "If invalid."
    );
}

#[test]
fn raises_test_raises_extra_spaces_after_colon() {
    let docstring = "Summary.\n\nRaises:\n    ValueError:   If invalid.";
    let result = parse_google(docstring);
    let r = raises(&result);
    assert_eq!(r[0].ty.source_text(&result.source), "ValueError");
    assert_eq!(
        r[0].description
            .source_text(&result.source),
        "If invalid."
    );
}

#[test]
fn raises_test_raise_alias() {
    let docstring = "Summary.\n\nRaise:\n    ValueError: If invalid.";
    let result = parse_google(docstring);
    let r = raises(&result);
    assert_eq!(r.len(), 1);
    assert_eq!(r[0].ty.source_text(&result.source), "ValueError");
    assert_eq!(
        all_sections(&result)
            .into_iter()
            .next()
            .unwrap()
            .header
            .name
            .source_text(&result.source),
        "Raise"
    );
}

#[test]
fn raises_test_docstring_like_raises() {
    let docstring = "Summary.\n\nRaises:\n    ValueError: If bad.";
    let result = parse_google(docstring);
    let r = raises(&result);
    assert_eq!(r.len(), 1);
    assert_eq!(r[0].ty.source_text(&result.source), "ValueError");
}

#[test]
fn raises_test_warns_basic() {
    let docstring = "Summary.\n\nWarns:\n    DeprecationWarning: If using old API.";
    let result = parse_google(docstring);
    let w = warns(&result);
    assert_eq!(w.len(), 1);
    assert_eq!(
        w[0].warning_type.source_text(&result.source),
        "DeprecationWarning"
    );
    assert_eq!(
        w[0].description
            .source_text(&result.source),
        "If using old API."
    );
}

#[test]
fn raises_test_warns_multiple() {
    let docstring =
        "Summary.\n\nWarns:\n    DeprecationWarning: Old API.\n    UserWarning: Bad config.";
    let result = parse_google(docstring);
    let w = warns(&result);
    assert_eq!(w.len(), 2);
    assert_eq!(
        w[0].warning_type.source_text(&result.source),
        "DeprecationWarning"
    );
    assert_eq!(w[1].warning_type.source_text(&result.source), "UserWarning");
}

#[test]
fn raises_test_warn_alias() {
    let docstring = "Summary.\n\nWarn:\n    FutureWarning: Will change.";
    let result = parse_google(docstring);
    assert_eq!(warns(&result).len(), 1);
    assert_eq!(
        all_sections(&result)
            .into_iter()
            .next()
            .unwrap()
            .header
            .name
            .source_text(&result.source),
        "Warn"
    );
}

#[test]
fn raises_test_warns_multiline_description() {
    let docstring = "Summary.\n\nWarns:\n    UserWarning: First line.\n        Second line.";
    let result = parse_google(docstring);
    assert_eq!(
        warns(&result)[0]
            .description
            .source_text(&result.source),
        "First line.\n        Second line."
    );
}

#[test]
fn google_raises_test_warns_section_body_variant() {
    let docstring = "Summary.\n\nWarns:\n    UserWarning: Desc.";
    let result = parse_google(docstring);
    match &all_sections(&result).into_iter().next().unwrap().body {
        GoogleSectionBody::Warns(warns) => {
            assert_eq!(warns.len(), 1);
        }
        _ => panic!("Expected Warns section body"),
    }
}

#[test]
fn raises_test_warning_singular_alias() {
    let docstring = "Summary.\n\nWarning:\n    This is deprecated.";
    let result = parse_google(docstring);
    assert_eq!(
        warnings(&result).unwrap().source_text(&result.source),
        "This is deprecated."
    );
    assert_eq!(
        all_sections(&result)
            .into_iter()
            .next()
            .unwrap()
            .header
            .name
            .source_text(&result.source),
        "Warning"
    );
}

#[test]
fn returns_test_returns_with_type() {
    let docstring = "Summary.\n\nReturns:\n    int: The result.";
    let result = parse_google(docstring);
    let r = returns_section(&result).unwrap();
    assert_eq!(
        r.return_type.as_ref().unwrap().source_text(&result.source),
        "int"
    );
    assert_eq!(
        r.description.source_text(&result.source),
        "The result."
    );
}

#[test]
fn returns_test_returns_multiple_lines() {
    let docstring = "Summary.\n\nReturns:\n    int: The count.\n    str: The message.";
    let result = parse_google(docstring);
    let r = returns_section(&result).unwrap();
    assert_eq!(
        r.return_type.as_ref().unwrap().source_text(&result.source),
        "int"
    );
    assert_eq!(
        r.description.source_text(&result.source),
        "The count.\n    str: The message."
    );
}

#[test]
fn returns_test_returns_without_type() {
    let docstring = "Summary.\n\nReturns:\n    The computed result.";
    let result = parse_google(docstring);
    let r = returns_section(&result).unwrap();
    assert!(r.return_type.is_none());
    assert_eq!(
        r.description.source_text(&result.source),
        "The computed result."
    );
}

#[test]
fn returns_test_returns_multiline_description() {
    let docstring = "Summary.\n\nReturns:\n    int: The result\n        of the computation.";
    let result = parse_google(docstring);
    assert_eq!(
        returns_section(&result)
            .unwrap()
            .description
            .source_text(&result.source),
        "The result\n        of the computation."
    );
}

#[test]
fn returns_test_return_alias() {
    let docstring = "Summary.\n\nReturn:\n    int: The value.";
    let result = parse_google(docstring);
    assert!(returns_section(&result).is_some());
}

#[test]
fn returns_test_returns_no_space_after_colon() {
    let docstring = "Summary.\n\nReturns:\n    int:The result.";
    let result = parse_google(docstring);
    let r = returns_section(&result).unwrap();
    assert_eq!(
        r.return_type.as_ref().unwrap().source_text(&result.source),
        "int"
    );
    assert_eq!(
        r.description.source_text(&result.source),
        "The result."
    );
}

#[test]
fn returns_test_returns_extra_spaces_after_colon() {
    let docstring = "Summary.\n\nReturns:\n    int:   The result.";
    let result = parse_google(docstring);
    let r = returns_section(&result).unwrap();
    assert_eq!(
        r.return_type.as_ref().unwrap().source_text(&result.source),
        "int"
    );
    assert_eq!(
        r.description.source_text(&result.source),
        "The result."
    );
}

#[test]
fn returns_test_docstring_like_returns() {
    let docstring = "Summary.\n\nReturns:\n    int: The result.";
    let result = parse_google(docstring);
    let r = returns_section(&result).unwrap();
    assert_eq!(
        r.return_type.as_ref().unwrap().source_text(&result.source),
        "int"
    );
}

#[test]
fn returns_test_yields() {
    let docstring = "Summary.\n\nYields:\n    int: The next value.";
    let result = parse_google(docstring);
    let y = yields(&result).unwrap();
    assert_eq!(
        y.return_type.as_ref().unwrap().source_text(&result.source),
        "int"
    );
    assert_eq!(
        y.description.source_text(&result.source),
        "The next value."
    );
}

#[test]
fn returns_test_yield_alias() {
    let docstring = "Summary.\n\nYield:\n    str: Next string.";
    let result = parse_google(docstring);
    assert!(yields(&result).is_some());
}

#[test]
fn sections_test_sections_with_blank_lines() {
    let docstring = "Summary.\n\nArgs:\n    x (int): Value.\n\n    y (str): Name.\n\nReturns:\n    bool: Success.";
    let result = parse_google(docstring);
    assert_eq!(args(&result).len(), 2);
    assert!(returns_section(&result).is_some());
}

#[test]
fn sections_test_napoleon_case_insensitive() {
    let docstring = "Summary.\n\nkeyword args:\n    x (int): Value.";
    let result = parse_google(docstring);
    assert_eq!(keyword_args(&result).len(), 1);
}

#[test]
fn sections_test_see_also_case_insensitive() {
    let docstring = "Summary.\n\nsee also:\n    func_a: Description.";
    let result = parse_google(docstring);
    assert_eq!(see_also(&result).len(), 1);
}

#[test]
fn google_structured_test_methods_section_body_variant() {
    let docstring = "Summary.\n\nMethods:\n    foo(): Does bar.";
    let result = parse_google(docstring);
    let sections = all_sections(&result);
    assert_eq!(sections[0].header.kind, GoogleSectionKind::Methods);
    assert_eq!(methods(&result).len(), 1);
}

#[test]
fn structured_test_see_also_section_body_variant() {
    let docstring = "Summary.\n\nSee Also:\n    func_a: Desc.";
    let result = parse_google(docstring);
    let sections = all_sections(&result);
    assert_eq!(sections[0].header.kind, GoogleSectionKind::SeeAlso);
    assert_eq!(see_also(&result).len(), 1);
}

#[test]
fn google_summary_test_empty_docstring() {
    let result = parse_google("");
    assert!(result.summary.is_none());
}

#[test]
fn google_summary_test_whitespace_only_docstring() {
    let result = parse_google("   \n   \n");
    assert!(result.summary.is_none());
}

#[test]
fn summary_test_section_only_no_summary() {
    let docstring = "Args:\n    x (int): Value.";
    let result = parse_google(docstring);
    assert_eq!(args(&result).len(), 1);
}

#[test]
fn test_parse_simple_google() {
    let docstring = "Brief description.";
    let result = parse_google(docstring);
    assert_eq!(
        result.summary.unwrap().source_text(&result.source),
        "Brief description."
    );
}
