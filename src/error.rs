//! Why a document could not be turned into a tree.
use vstd::prelude::*;

verus! {

#[verifier::external_type_specification]
#[verifier::external_body]
pub struct ExIoError(std::io::Error);

#[derive(Debug)]
pub enum ParseError {
    /// An element's closing tag names another element than its opening tag.
    TagMismatch { opening: String, ending: String },
    /// The text does not match the grammar.
    SyntaxError,
    /// Reading the input failed.
    IoError(std::io::Error),
    /// The grammar and the tree builder disagree.
    InternalError { message: String },
}

} // verus!
