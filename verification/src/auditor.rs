//! Collects diagnostics for documents with syntax errors.

use crate::document::Document;
use crate::error::Error;
use crate::lsp::{Diagnostic, DiagnosticSeverity, Position, Range};
use crate::syntax::node::SyntaxNode;
use crate::text::utf8_len;
use crate::util::{line_break_ends, line_byte_starts};
use vstd::prelude::*;

verus! {

/// Where and why a text failed to parse as a WebAssembly script.
pub struct WastError {
    /// Byte offset of the error in the text.
    pub offset: usize,
    /// What went wrong.
    pub message: String,
}

/// The index of the last of the increasing line starts `starts` that is at or before
/// byte `offset`, or 0.
pub open spec fn line_of_byte(starts: Seq<int>, offset: int) -> int
    decreases starts.len(),
{
    if starts.len() <= 1 {
        0
    } else if starts.last() <= offset {
        starts.len() - 1
    } else {
        line_of_byte(starts.drop_last(), offset)
    }
}

/// The number of lines of `text` when a final line break ends the last line rather than
/// beginning an empty one.
pub open spec fn terminated_line_count(text: Seq<char>) -> int {
    line_break_ends(text).len() + if text.len() > 0 && text.last() != '\n' {
        1int
    } else {
        0int
    }
}

/// The zero-based line and byte column of byte `offset` in `text`, as
/// `wast::token::Span::linecol_in` computes them: the line that holds the offset and the
/// offset from the line's start; past the end of the text, the number of lines and 0.
pub open spec fn wast_linecol(offset: usize, text: Seq<char>) -> (usize, usize) {
    let starts = line_byte_starts(text);
    if offset <= utf8_len(text) {
        let k = line_of_byte(starts, offset as int);
        (k as usize, (offset - starts[k]) as usize)
    } else {
        (terminated_line_count(text) as usize, 0)
    }
}

/// Parses `text` with `wast::parser::ParseBuffer::new` and `wast::parser::parse::<Wast>`
/// and reports the first error, of lexing or of parsing, by its byte offset
/// (`Error::span`) and message (`Error::message`). Nothing is stated of the outcome: the
/// parser also reads the process environment (whether component indices are strict), so
/// the same text need not give the same outcome in every process.
#[verifier::external_body]
fn parse_wast(text: &str) -> (res: Option<WastError>)
{
    let error = match wast::parser::ParseBuffer::new(text) {
        Err(error) => error,
        Ok(buffer) => match wast::parser::parse::<wast::Wast>(&buffer) {
            Err(error) => error,
            Ok(_) => return None,
        },
    };
    Some(WastError { offset: error.span().offset(), message: error.message() })
}

/// `wast::token::Span::linecol_in` for the span at byte `offset`. Its source walks the
/// lines of `text` split at each line break and returns the first line that reaches past
/// the offset with the offset's distance from the line's start, else the number of lines
/// and 0: `wast_linecol(offset, text)`.
#[verifier::external_body]
fn linecol_in(offset: usize, text: &str) -> (res: (usize, usize))
    ensures
        res == wast_linecol(offset, text@),
{
    wast::token::Span::from_offset(offset).linecol_in(text)
}

/// The diagnostic for a script error at `line` and `column` with `message`.
pub open spec fn error_diagnostic_matches(d: Diagnostic, line: usize, column: usize, message: Seq<char>) -> bool {
    let at = Position { line: line as u32, character: column as u32 };
    &&& d.range == (Range { start: at, end: at })
    &&& d.severity == Some(DiagnosticSeverity::Error)
    &&& d.source matches Some(s) && s@ == "wast"@
    &&& d.message@ == message
}

/// The diagnostic for the error of `text` at byte `offset` with `message`.
fn error_diagnostic(text: &str, offset: usize, message: String) -> (res: Diagnostic)
    ensures
        error_diagnostic_matches(
            res,
            wast_linecol(offset, text@).0,
            wast_linecol(offset, text@).1,
            message@,
        ),
{
    let (line, col) = linecol_in(offset, text);
    error_diagnostic_at(line, col, message)
}

/// The diagnostic for a script error at the zero-based `line` and `col` with `message`:
/// an error from the `wast` source, at an empty range there.
pub fn error_diagnostic_at(line: usize, col: usize, message: String) -> (res: Diagnostic)
    ensures
        error_diagnostic_matches(res, line, col, message@),
{
    let range = {
        let start = Position::new(line as u32, col as u32);
        let end = Position::new(line as u32, col as u32);
        Range::new(start, end)
    };
    let severity = Some(DiagnosticSeverity::Error);
    let source = Some("wast".to_owned());
    Diagnostic { range, severity, source, message }
}

/// Whether `ds` are the diagnostics for `text` when the tree of the text has an error
/// exactly when `has_error`, and parsing the text ended in `outcome` (byte offset and
/// message of the error, or none): none when the tree has no error or the parser found
/// none, else the parser's error placed at its line and column.
pub open spec fn reports(text: Seq<char>, has_error: bool, outcome: Option<(usize, Seq<char>)>, ds: Seq<Diagnostic>) -> bool {
    if !has_error {
        ds.len() == 0
    } else {
        match outcome {
            None => ds.len() == 0,
            Some((offset, message)) => ds.len() == 1 && error_diagnostic_matches(
                ds[0],
                wast_linecol(offset, text).0,
                wast_linecol(offset, text).1,
                message,
            ),
        }
    }
}

/// Whether `d` is an error reported from the `wast` source.
pub open spec fn is_wast_error(d: Diagnostic) -> bool {
    &&& d.severity == Some(DiagnosticSeverity::Error)
    &&& d.source matches Some(s) && s@ == "wast"@
}

/// The outcome of a parse as byte offset and message.
pub open spec fn outcome_view(outcome: Option<WastError>) -> Option<(usize, Seq<char>)> {
    match outcome {
        Some(e) => Some((e.offset, e.message@)),
        None => None,
    }
}

/// On a tree with an error, whatever the document's language, an error that the parser
/// reports becomes exactly one diagnostic: an error from the `wast` source with the
/// parser's message, at an empty range at the error's line and column; when the parser
/// reports none, there is no diagnostic.
pub proof fn law_parser_errors_are_reported(
    text: Seq<char>,
    outcome: Option<(usize, Seq<char>)>,
    ds: Seq<Diagnostic>,
)
    requires
        reports(text, true, outcome, ds),
    ensures
        outcome is None ==> ds.len() == 0,
        outcome matches Some((offset, message)) ==> {
            let (line, column) = wast_linecol(offset, text);
            let at = Position { line: line as u32, character: column as u32 };
            &&& ds.len() == 1
            &&& ds[0].severity == Some(DiagnosticSeverity::Error)
            &&& ds[0].source matches Some(s) && s@ == "wast"@
            &&& ds[0].message@ == message
            &&& ds[0].range.start == at
            &&& ds[0].range.end == at
        },
{
}

/// Whether parsing `text` as a WebAssembly script may end in `outcome`: one of the
/// outcomes that the parser gives on it.
pub closed spec fn parse_may_give(text: &str, outcome: Option<WastError>) -> bool {
    call_ensures(parse_wast, (text,), outcome)
}

/// The diagnostics for `text`, whose tree has an error exactly when `has_error`, when
/// parsing it as a WebAssembly script ended in `outcome`.
pub fn diagnostics_from_outcome(text: &str, has_error: bool, outcome: Option<WastError>) -> (res: Vec<Diagnostic>)
    ensures
        reports(text@, has_error, outcome_view(outcome), res@),
{
    let mut diagnostics: Vec<Diagnostic> = Vec::new();
    if has_error {
        match outcome {
            Some(error) => {
                diagnostics.push(error_diagnostic(text, error.offset, error.message));
            },
            None => {},
        }
    }
    diagnostics
}

/// Diagnostics for a change event given a `document` and the root of its syntax tree:
/// none when the tree holds no error; else the document's text is parsed as a
/// WebAssembly script and its error, if any, is placed at its line and column.
pub fn diagnostics_for_change(document: &Document, tree: &SyntaxNode) -> (res: Result<Vec<Diagnostic>, Error>)
    ensures
        res is Ok,
        exists|outcome: Option<(usize, Seq<char>)>| #[trigger] reports(
            document.text(),
            tree.has_error,
            outcome,
            res->Ok_0@,
        ),
        res is Ok && res->Ok_0@.len() <= 1,
        res is Ok && !tree.has_error ==> res->Ok_0@.len() == 0,
        res is Ok && res->Ok_0@.len() == 1 ==> is_wast_error(res->Ok_0@[0]),
        tree.has_error ==> exists|source: &str, outcome: Option<WastError>|
            #[trigger] parse_may_give(source, outcome) && source@ == document.text() && reports(
                document.text(),
                true,
                outcome_view(outcome),
                res->Ok_0@,
            ),
{
    if tree.has_error {
        let source = document.to_text();
        let parse = parse_wast;
        let src = source.as_str();
        let outcome = parse(src);
        assert(parse_may_give(src, outcome));
        let ghost o = outcome_view(outcome);
        let diagnostics = diagnostics_from_outcome(source.as_str(), true, outcome);
        assert(reports(document.text(), tree.has_error, o, diagnostics@));
        let res: Result<Vec<Diagnostic>, Error> = Ok(diagnostics);
        assert(reports(document.text(), tree.has_error, o, res->Ok_0@));
        res
    } else {
        let diagnostics: Vec<Diagnostic> = Vec::new();
        let res: Result<Vec<Diagnostic>, Error> = Ok(diagnostics);
        assert(reports(document.text(), tree.has_error, None, res->Ok_0@));
        res
    }
}

} // verus!
