//! Runtime errors of the language server.

use vstd::prelude::*;

verus! {

/// Why a grammar could not be assigned to a parser: the grammar's ABI version.
#[derive(Clone, Debug, PartialEq, Eq)]
pub struct LanguageError {
    pub version: usize,
}

/// Why a syntax query could not be built, as a position in the query source.
#[derive(Clone, Debug, PartialEq, Eq)]
pub struct QueryError {
    pub row: usize,
    pub column: usize,
    pub offset: usize,
    pub message: String,
}

/// Why a byte sequence is not UTF-8.
#[derive(Clone, Debug, PartialEq, Eq)]
pub struct Utf8Error {
    /// Length of the longest valid prefix.
    pub valid_up_to: usize,
    /// Length of the invalid sequence, if the input did not just end too early.
    pub error_len: Option<u8>,
}

/// Why a position or an index could not be found in a file.
#[derive(Clone, Debug, PartialEq, Eq)]
pub enum FilesError {
    /// A column past the end of its line: `given` is the line's width in UTF-16 code
    /// units, `max` its length in bytes.
    ColumnTooLarge { given: usize, max: usize },
    /// Any other failure of a file lookup.
    Other,
}

/// Runtime errors for the WebAssembly language server.
#[derive(Clone, Debug, PartialEq, Eq)]
pub enum Error {
    /// A language-id string that names no supported language.
    CoreInvalidLanguageId(String),
    /// A grammar could not be set for a parser.
    LanguageError(LanguageError),
    /// A syntax query could not be created from its source.
    QueryError(QueryError),
    /// Document text that is not UTF-8.
    Utf8Error(Utf8Error),
    /// A column past the end of its line: `given` is the line's width in UTF-16
    /// code units, `max` its length in bytes.
    ColumnOutOfBounds { given: usize, max: usize },
    /// A line index past the last line: `max` is the number of lines.
    LineOutOfBounds { given: usize, max: usize },
    /// A lookup in a file failed.
    Files(FilesError),
}

} // verus!
