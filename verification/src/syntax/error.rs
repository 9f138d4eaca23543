//! Errors raised while choosing a parser for a document.

use vstd::prelude::*;

verus! {

/// Runtime errors for the WebAssembly parsers.
#[derive(Clone, Debug, PartialEq, Eq)]
pub enum Error {
    /// A language-id string that names no supported language.
    InvalidLanguageId(String),
    /// A path whose text is not valid Unicode.
    OsStrToStrFailed,
    /// A path without an extension.
    PathExtensionFailed(String),
}

} // verus!
