//! Sphinx-style docstring support.
//!
//! Sphinx style is not supported yet: the types are defined, and the parser
//! only extracts the summary line and reports an error diagnostic.
pub mod ast;
pub mod parser;

pub use ast::{
    SphinxDocstring, SphinxException, SphinxField, SphinxParameter, SphinxReturns, SphinxVariable,
};
pub use parser::parse_sphinx;
