use wasm_lsp_server::database::{announces_open, DocumentStatus, DocumentStatusKind};
use wasm_lsp_server::document::Document;
use wasm_lsp_server::error::Error;
use wasm_lsp_server::language::{str_eq, Language};
use wasm_lsp_server::lsp::{Position, Range};
use wasm_lsp_server::synchronizer::{change_text, tasks_after, DocumentEvent, Service, Task};
use wasm_lsp_server::text::{char_len_utf16, char_len_utf8, chars_of, str_byte_len, string_from_chars};

#[test]
fn language_ids() {
    assert_eq!(Language::try_from(String::from("wasm.wast")), Ok(Language::Wast));
    assert_eq!(Language::try_from(String::from("wasm.wat")), Ok(Language::Wat));
    assert_eq!(Language::try_from(String::from("wasm.wit")), Ok(Language::Wit));
    assert_eq!(Language::try_from(String::from("wasm.witx")), Ok(Language::Witx));
    assert_eq!(
        Language::try_from(String::from("wasm")),
        Err(Error::CoreInvalidLanguageId(String::from("wasm")))
    );
}

#[test]
fn document_gives_back_its_text() {
    let text = "(module)\n\u{1f600}";
    let document = Document::new(Language::Wast, String::from(text));
    assert_eq!(document.to_text(), text);
    assert_eq!(document.len_bytes(), text.len());
    assert_eq!(document.language, Language::Wast);
}

#[test]
fn text_lengths() {
    assert_eq!(char_len_utf8('a'), 1);
    assert_eq!(char_len_utf8('\u{e9}'), 2);
    assert_eq!(char_len_utf8('\u{20ac}'), 3);
    assert_eq!(char_len_utf8('\u{1f600}'), 4);
    assert_eq!(char_len_utf16('\u{20ac}'), 1);
    assert_eq!(char_len_utf16('\u{1f600}'), 2);
    assert_eq!(str_byte_len("a\u{e9}"), 3);
    let chars = chars_of("a\u{e9}b");
    assert_eq!(chars, vec!['a', '\u{e9}', 'b']);
    assert_eq!(string_from_chars(&chars), "a\u{e9}b");
    assert!(str_eq("abc", "abc"));
    assert!(!str_eq("abc", "abd"));
    assert!(!str_eq("abc", "ab"));
}

#[test]
fn document_status_bytes() {
    assert_eq!(DocumentStatus::closed(), DocumentStatus(0));
    assert_eq!(DocumentStatus::opened(), DocumentStatus(1));
    assert_eq!(DocumentStatus::opened().as_bytes(), vec![1]);
    assert_eq!(DocumentStatusKind::Closed.code(), 0);
    assert_eq!(DocumentStatusKind::Opened.code(), 1);
}

#[test]
fn an_open_event_names_the_document() {
    let uri = b"inmemory:///test";
    assert!(announces_open(uri, uri, &DocumentStatus::opened().as_bytes()));
    assert!(!announces_open(uri, uri, &DocumentStatus::closed().as_bytes()));
    assert!(!announces_open(uri, b"inmemory:///other", &[1]));
    assert!(!announces_open(uri, uri, &[1, 0]));
}

#[test]
fn services_run_after_a_tree_was_made() {
    let opened = DocumentEvent::Opened;
    assert_eq!(
        tasks_after(opened, true),
        vec![Task { service: Service::Auditor, event: opened }, Task { service: Service::Elaborator, event: opened }]
    );
    assert_eq!(tasks_after(opened, false), vec![]);
    assert_eq!(tasks_after(DocumentEvent::Changed, false), vec![]);
    let closed = DocumentEvent::Closed;
    assert_eq!(
        tasks_after(closed, false),
        vec![Task { service: Service::Auditor, event: closed }, Task { service: Service::Elaborator, event: closed }]
    );
    let changes = vec![String::from("(module)"), String::from("ignored")];
    assert_eq!(change_text(&changes), "(module)");
}

#[test]
fn positions_and_ranges() {
    let p = Position::new(2, 5);
    assert_eq!((p.line, p.character), (2, 5));
    let r = Range::new(p, Position::new(3, 0));
    assert_eq!(r.start, p);
    assert_eq!(r.end, Position::new(3, 0));
}
