//! NumPy-style docstring support.
pub mod ast;
pub mod laws;
pub mod parser;

pub use ast::{
    NumPyAttribute, NumPyDeprecation, NumPyDocstring, NumPyDocstringItem, NumPyException,
    NumPyMethod, NumPyParameter, NumPyReference, NumPyReturns, NumPySection, NumPySectionBody,
    NumPySectionHeader, NumPySectionKind, NumPyWarning, SeeAlsoItem,
};
pub use parser::{parse_numpy, try_parse_numpy};
