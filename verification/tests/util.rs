use wasm_lsp_server::document::Document;
use wasm_lsp_server::error::Error;
use wasm_lsp_server::language::Language;
use wasm_lsp_server::lsp::Position;
use wasm_lsp_server::util::{byte_index, offset, range, span, start, starts};

fn document(text: &str) -> Document {
    Document::new(Language::Wat, String::from(text))
}

#[test]
fn offset_counts_utf16_columns_as_bytes() {
    let line = "a\u{e9}\u{1f600}b";
    assert_eq!(offset(line, 0), Ok(0));
    assert_eq!(offset(line, 1), Ok(1));
    assert_eq!(offset(line, 2), Ok(3));
    assert_eq!(offset(line, 4), Ok(7));
    assert_eq!(offset(line, 5), Ok(8));
}

#[test]
fn offset_inside_a_surrogate_pair_is_refused() {
    let line = "a\u{e9}\u{1f600}b";
    assert_eq!(offset(line, 3), Err(Error::ColumnOutOfBounds { given: 5, max: 8 }));
    assert_eq!(offset(line, 6), Err(Error::ColumnOutOfBounds { given: 5, max: 8 }));
    assert_eq!(offset("", 1), Err(Error::ColumnOutOfBounds { given: 0, max: 0 }));
}

#[test]
fn starts_lists_the_first_byte_of_each_line() {
    assert_eq!(starts("ab\ncd\n"), vec![0, 3, 6]);
    assert_eq!(starts(""), vec![0]);
    assert_eq!(starts("\u{e9}\nx"), vec![0, 3]);
}

#[test]
fn start_of_a_line_and_past_the_text() {
    let doc = document("ab\ncd\n");
    let line_starts = starts("ab\ncd\n");
    assert_eq!(start(&doc, &line_starts, 1), Ok(3));
    assert_eq!(start(&doc, &line_starts, 3), Ok(6));
    assert_eq!(start(&doc, &line_starts, 4), Err(Error::LineOutOfBounds { given: 4, max: 3 }));
}

#[test]
fn span_and_range_of_lines() {
    let doc = document("ab\ncd\n");
    assert_eq!(span(&doc, 0), Ok((0, 3)));
    assert_eq!(span(&doc, 2), Ok((6, 6)));
    assert_eq!(span(&doc, 3), Err(Error::LineOutOfBounds { given: 4, max: 3 }));
    assert_eq!(span(&doc, 5), Err(Error::LineOutOfBounds { given: 5, max: 3 }));
    assert_eq!(range(&doc, 1), Some(3..6));
    assert_eq!(range(&doc, 3), None);
}

#[test]
fn byte_index_adds_line_start_and_column_offset() {
    let doc = document("ab\nc\u{e9}\n");
    assert_eq!(byte_index(&doc, &Position::new(0, 0)), Ok(0));
    assert_eq!(byte_index(&doc, &Position::new(1, 2)), Ok(6));
    assert_eq!(byte_index(&doc, &Position::new(1, 3)), Ok(7));
    assert_eq!(byte_index(&doc, &Position::new(2, 0)), Ok(7));
    assert_eq!(byte_index(&doc, &Position::new(1, 5)), Err(Error::ColumnOutOfBounds { given: 3, max: 4 }));
}
