use wasm_lsp_server::analyzer::{hover_for_byte_range, hover_for_token_range, hover_with_document, Analyzer, HoverKinds};
use wasm_lsp_server::document::Document;
use wasm_lsp_server::error::{Error, FilesError};
use wasm_lsp_server::language::Language;
use wasm_lsp_server::lsp::{Hover, HoverContents, MarkedString, Position, Range};
use wasm_lsp_server::syntax::node::SyntaxNode;
use wasm_lsp_server::syntax::range::{Point, SyntaxRange};
use wasm_lsp_server::text::chars_of;

const MODULE_FIELD: u16 = 3;
const INSTR: u16 = 4;
const INSTR_PLAIN: u16 = 5;
const OTHER: u16 = 6;

fn kinds() -> HoverKinds {
    HoverKinds { instr: vec![INSTR, 40], instr_plain: vec![INSTR_PLAIN, 50], module_field: vec![MODULE_FIELD, 30] }
}

// Single-line text: points are byte columns on row `row`.
fn node(kind_id: u16, row: usize, base: usize, start: usize, end: usize, children: Vec<SyntaxNode>) -> SyntaxNode {
    SyntaxNode {
        language: Language::Wat,
        kind_id,
        field_id: None,
        is_named: true,
        is_error: false,
        is_missing: false,
        has_error: false,
        range: SyntaxRange {
            start_byte: base + start,
            end_byte: base + end,
            start_point: Point { row, column: start },
            end_point: Point { row, column: end },
        },
        children,
    }
}

const TEXT: &str = "(module)\n(func (i32.const 7) nop)\n";

// line 1 starts at byte 9: "(func (i32.const 7) nop)"
fn tree() -> SyntaxNode {
    let b = 9;
    let constant = node(INSTR_PLAIN, 1, b, 7, 18, vec![node(OTHER, 1, b, 7, 16, vec![])]);
    let expr = node(INSTR, 1, b, 6, 19, vec![node(OTHER, 1, b, 6, 7, vec![]), constant, node(OTHER, 1, b, 18, 19, vec![])]);
    let nop = node(INSTR_PLAIN, 1, b, 20, 23, vec![]);
    let field = node(MODULE_FIELD, 1, b, 0, 24, vec![node(OTHER, 1, b, 1, 5, vec![]), expr, nop]);
    let module = node(MODULE_FIELD, 0, 0, 0, 8, vec![]);
    let mut root = node(1, 0, 0, 0, 34, vec![module, field]);
    root.range.end_point = Point { row: 2, column: 0 };
    root
}

fn shown(text: &str, r: Range) -> Option<Hover> {
    Some(Hover { contents: HoverContents::Array(vec![MarkedString::String(String::from(text))]), range: Some(r) })
}

fn range(sl: u32, sc: u32, el: u32, ec: u32) -> Range {
    Range::new(Position::new(sl, sc), Position::new(el, ec))
}

#[test]
fn hover_shows_the_deepest_described_node() {
    let document = Document::new(Language::Wat, String::from(TEXT));
    let root = tree();
    let hover = hover_with_document(&document, &root, &kinds(), Position::new(1, 10)).unwrap();
    assert_eq!(hover, shown("i32.const 7", range(1, 7, 1, 18)));
}

#[test]
fn hover_climbs_to_a_described_ancestor() {
    let document = Document::new(Language::Wat, String::from(TEXT));
    let root = tree();
    let hover = hover_with_document(&document, &root, &kinds(), Position::new(1, 2)).unwrap();
    assert_eq!(hover, shown("(func (i32.const 7) nop)", range(1, 0, 1, 24)));
    let hover = hover_with_document(&document, &root, &kinds(), Position::new(1, 6)).unwrap();
    assert_eq!(hover, shown("(i32.const 7)", range(1, 6, 1, 19)));
}

#[test]
fn hover_outside_described_nodes_shows_nothing() {
    let document = Document::new(Language::Wat, String::from(TEXT));
    let root = tree();
    assert_eq!(hover_with_document(&document, &root, &kinds(), Position::new(2, 0)), Ok(None));
}

#[test]
fn hover_at_a_column_past_the_line_fails() {
    let document = Document::new(Language::Wat, String::from(TEXT));
    let root = tree();
    assert_eq!(
        hover_with_document(&document, &root, &kinds(), Position::new(0, 12)),
        Err(Error::Files(FilesError::ColumnTooLarge { given: 9, max: 9 }))
    );
}

#[test]
fn hover_over_a_token_range() {
    let document = Document::new(Language::Wat, String::from(TEXT));
    let root = tree();
    let hover = hover_for_token_range(&document, &root, &kinds(), range(1, 20, 1, 23)).unwrap();
    assert_eq!(hover, shown("nop", range(1, 20, 1, 23)));
    let hover = hover_for_token_range(&document, &root, &kinds(), range(1, 7, 1, 23)).unwrap();
    assert_eq!(hover, shown("(func (i32.const 7) nop)", range(1, 0, 1, 24)));
}

#[test]
fn hover_for_bytes_of_a_module() {
    let root = tree();
    let text = chars_of(TEXT);
    assert_eq!(hover_for_byte_range(&text, &root, &kinds(), 3, 3), shown("(module)", range(0, 0, 0, 8)));
}

#[test]
fn analyzer_keeps_its_session() {
    assert!(Analyzer::new(7u8).is_ok());
}
