//! Sphinx-style docstring AST.
use vstd::prelude::*;
use crate::ast::Spanned;
use crate::text::TextRange;

verus! {

/// A parsed Sphinx-style docstring.
#[derive(Debug, Clone, PartialEq, Eq)]
pub struct SphinxDocstring {
    pub source: String,
    pub range: TextRange,
    pub summary: Spanned<String>,
    pub description: Option<Spanned<String>>,
    pub parameters: Vec<SphinxParameter>,
    pub returns: Option<SphinxReturns>,
    pub raises: Vec<SphinxException>,
    pub variables: Vec<SphinxVariable>,
    pub instance_variables: Vec<SphinxVariable>,
    pub class_variables: Vec<SphinxVariable>,
    pub custom_fields: Vec<SphinxField>,
}

/// `:param name:` with its `:type name:`.
#[derive(Debug, Clone, PartialEq, Eq)]
pub struct SphinxParameter {
    pub range: TextRange,
    pub name: Spanned<String>,
    pub param_type: Option<Spanned<String>>,
    pub description: Spanned<String>,
}

/// `:returns:` with its `:rtype:`.
#[derive(Debug, Clone, PartialEq, Eq)]
pub struct SphinxReturns {
    pub range: TextRange,
    pub return_type: Option<Spanned<String>>,
    pub description: Spanned<String>,
}

/// `:raises Type:`.
#[derive(Debug, Clone, PartialEq, Eq)]
pub struct SphinxException {
    pub range: TextRange,
    pub exception_type: Spanned<String>,
    pub description: Spanned<String>,
}

/// `:var name:`, `:ivar name:` or `:cvar name:` with its `:vartype name:`.
#[derive(Debug, Clone, PartialEq, Eq)]
pub struct SphinxVariable {
    pub range: TextRange,
    pub name: Spanned<String>,
    pub var_type: Option<Spanned<String>>,
    pub description: Spanned<String>,
}

/// Any other field `:name argument: content`.
#[derive(Debug, Clone, PartialEq, Eq)]
pub struct SphinxField {
    pub range: TextRange,
    pub field_name: Spanned<String>,
    pub argument: Option<Spanned<String>>,
    pub content: Spanned<String>,
}

/// `d` holds no summary, description or fields, and an empty source.
pub open spec fn is_empty_sphinx(d: SphinxDocstring) -> bool {
    &&& d.source@.len() == 0
    &&& d.range == TextRange::spec_empty()
    &&& d.summary.value@.len() == 0
    &&& d.summary.range == TextRange::spec_empty()
    &&& d.description is None
    &&& d.parameters@.len() == 0
    &&& d.returns is None
    &&& d.raises@.len() == 0
    &&& d.variables@.len() == 0
    &&& d.instance_variables@.len() == 0
    &&& d.class_variables@.len() == 0
    &&& d.custom_fields@.len() == 0
}

impl SphinxDocstring {
    /// An empty docstring.
    pub fn new() -> (r: Self)
        ensures
            is_empty_sphinx(r),
    {
        SphinxDocstring {
            source: String::new(),
            range: TextRange::empty(),
            summary: Spanned::empty_string(),
            description: None,
            parameters: Vec::new(),
            returns: None,
            raises: Vec::new(),
            variables: Vec::new(),
            instance_variables: Vec::new(),
            class_variables: Vec::new(),
            custom_fields: Vec::new(),
        }
    }
}

} // verus!
