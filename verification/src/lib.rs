//! A parser for Python docstrings (NumPy, Google and, for the summary only,
//! Sphinx styles) with exact byte-offset source ranges on every node.

pub mod ast;
pub mod cursor;
pub mod error;
pub mod lexical;
pub mod parser;
pub mod span;
pub mod styles;
pub mod text;
pub mod types;
pub mod unicode;
pub mod utf8;
pub mod views;

pub use ast::{LineIndex, Spanned, Style, TextRange, TextSize};
pub use error::{Diagnostic, ParseResult, Severity};
pub use parser::{detect_style, parse};
pub use styles::{google, numpy, sphinx};
pub use styles::google::{
    GoogleArg, GoogleAttribute, GoogleDocstring, GoogleDocstringItem, GoogleException,
    GoogleMethod, GoogleReturns, GoogleSection, GoogleSectionBody, GoogleSectionHeader,
    GoogleSectionKind, GoogleSeeAlsoItem, GoogleWarning,
};
pub use styles::numpy::{
    NumPyAttribute, NumPyDeprecation, NumPyDocstring, NumPyDocstringItem, NumPyException,
    NumPyMethod, NumPyParameter, NumPyReference, NumPyReturns, NumPySection, NumPySectionBody,
    NumPySectionHeader, NumPySectionKind, NumPyWarning, SeeAlsoItem,
};
pub use styles::sphinx::{
    SphinxDocstring, SphinxException, SphinxField, SphinxParameter, SphinxReturns,
    SphinxVariable,
};
pub use types::Docstring;
pub use views::ParameterView;
