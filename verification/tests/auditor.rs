use wasm_lsp_server::auditor::{diagnostics_from_outcome, WastError};
use wasm_lsp_server::auditor::{diagnostics_for_change, error_diagnostic_at};
use wasm_lsp_server::document::Document;
use wasm_lsp_server::language::Language;
use wasm_lsp_server::lsp::{DiagnosticSeverity, Position, Range};
use wasm_lsp_server::syntax::node::SyntaxNode;
use wasm_lsp_server::syntax::range::{Point, SyntaxRange};

fn root(has_error: bool, len: usize) -> SyntaxNode {
    SyntaxNode {
        language: Language::Wast,
        kind_id: 1,
        field_id: None,
        is_named: true,
        is_error: false,
        is_missing: false,
        has_error,
        range: SyntaxRange {
            start_byte: 0,
            end_byte: len,
            start_point: Point { row: 0, column: 0 },
            end_point: Point { row: 0, column: len },
        },
        children: vec![],
    }
}

fn wast_error(text: &str) -> ((usize, usize), String) {
    let buffer = wast::parser::ParseBuffer::new(text).unwrap();
    let error = wast::parser::parse::<wast::Wast>(&buffer).err().unwrap();
    (error.span().linecol_in(text), error.message())
}

#[test]
fn no_diagnostics_without_errors_in_the_tree() {
    let text = "(module (func)";
    let document = Document::new(Language::Wast, String::from(text));
    assert_eq!(diagnostics_for_change(&document, &root(false, text.len())), Ok(vec![]));
}

#[test]
fn no_diagnostics_when_the_script_parses() {
    let text = "(module (func $f))\n(assert_return (invoke \"f\"))";
    let document = Document::new(Language::Wast, String::from(text));
    assert_eq!(diagnostics_for_change(&document, &root(true, text.len())), Ok(vec![]));
}

#[test]
fn the_parse_error_becomes_a_diagnostic() {
    let text = "(module\n  (func $f (result i32)\n    i32.const))";
    let document = Document::new(Language::Wast, String::from(text));
    let diagnostics = diagnostics_for_change(&document, &root(true, text.len())).unwrap();
    let ((line, col), message) = wast_error(text);
    assert_eq!(diagnostics.len(), 1);
    let d = &diagnostics[0];
    let at = Position::new(line as u32, col as u32);
    assert_eq!(d.range, Range::new(at, at));
    assert_eq!(d.severity, Some(DiagnosticSeverity::Error));
    assert_eq!(d.source, Some(String::from("wast")));
    assert_eq!(d.message, message);
    assert!(line > 0);
}

#[test]
fn a_lexing_error_becomes_a_diagnostic() {
    let text = "(module \"unterminated";
    let document = Document::new(Language::Wast, String::from(text));
    let diagnostics = diagnostics_for_change(&document, &root(true, text.len())).unwrap();
    assert_eq!(diagnostics.len(), 1);
    assert!(!diagnostics[0].message.is_empty());
    assert_eq!(diagnostics[0].source, Some(String::from("wast")));
}

#[test]
fn error_diagnostic_sits_at_an_empty_range() {
    let d = error_diagnostic_at(3, 7, String::from("expected a type"));
    let at = Position::new(3, 7);
    assert_eq!(d.range, Range::new(at, at));
    assert_eq!(d.severity, Some(DiagnosticSeverity::Error));
    assert_eq!(d.source, Some(String::from("wast")));
    assert_eq!(d.message, "expected a type");
}

#[test]
fn an_error_at_the_end_of_the_text_is_on_the_line_after_it() {
    let text = "(module\n";
    let document = Document::new(Language::Wast, String::from(text));
    let diagnostics = diagnostics_for_change(&document, &root(true, text.len())).unwrap();
    let ((line, col), message) = wast_error(text);
    assert_eq!((line, col), (1, 0));
    assert_eq!(diagnostics.len(), 1);
    assert_eq!(diagnostics[0].range, Range::new(Position::new(1, 0), Position::new(1, 0)));
    assert_eq!(diagnostics[0].message, message);
}

#[test]
fn diagnostics_from_a_parse_outcome() {
    let text = "(module\n  (func))x";
    let error = WastError { offset: 17, message: String::from("extra tokens") };
    let ds = diagnostics_from_outcome(text, true, Some(error));
    assert_eq!(ds.len(), 1);
    assert_eq!(ds[0].range, Range::new(Position::new(1, 9), Position::new(1, 9)));
    assert_eq!(ds[0].message, "extra tokens");
    let error = WastError { offset: 17, message: String::from("extra tokens") };
    assert!(diagnostics_from_outcome(text, false, Some(error)).is_empty());
    assert!(diagnostics_from_outcome(text, true, None).is_empty());
}
