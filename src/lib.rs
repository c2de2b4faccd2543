//! A parser for a small subset of XML: a grammar over the input characters,
//! a tree builder that checks that every closing tag names its element, and
//! read-only queries and a canonical rendering over the resulting tree.
use vstd::prelude::*;

pub mod error;
pub mod grammar;
pub mod laws;
pub mod node;
pub mod parser;
mod scan;
pub mod text;

pub use error::ParseError;
pub use node::{NodeView, XmlNode};
pub use parser::{parse_xml, Grammar};

verus! {

} // verus!
