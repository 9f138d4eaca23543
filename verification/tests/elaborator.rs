use wasm_lsp_server::document::Document;
use wasm_lsp_server::elaborator::{document_symbol, elaborate, end, start, symbol_range, NodeKinds};
use wasm_lsp_server::language::Language;
use wasm_lsp_server::lsp::{DocumentSymbol, DocumentSymbolResponse, Position, Range, SymbolKind};
use wasm_lsp_server::syntax::node::SyntaxNode;
use wasm_lsp_server::syntax::range::{Point, SyntaxRange};
use wasm_lsp_server::text::chars_of;

const PARSE: u16 = 1;
const COMMAND: u16 = 2;
const MODULE: u16 = 3;
const MODULE_FIELD: u16 = 4;
const DATA: u16 = 5;
const ELEM: u16 = 6;
const FUNC: u16 = 7;
const GLOBAL: u16 = 8;
const MEMORY: u16 = 9;
const TABLE: u16 = 10;
const TYPE: u16 = 11;
const ASSERT_RETURN: u16 = 12;
const IDENTIFIER_NODE: u16 = 13;
const IDENTIFIER_FIELD: u16 = 20;

fn kinds(top_level: u16) -> NodeKinds {
    NodeKinds {
        parse: PARSE,
        command: COMMAND,
        module: MODULE,
        module_field: MODULE_FIELD,
        module_field_data: DATA,
        module_field_elem: ELEM,
        module_field_func: FUNC,
        module_field_global: GLOBAL,
        module_field_memory: MEMORY,
        module_field_table: TABLE,
        module_field_type: TYPE,
        top_level,
        identifier: IDENTIFIER_FIELD,
    }
}

struct Text {
    line_starts: Vec<usize>,
}

impl Text {
    fn new(text: &str) -> Text {
        let mut line_starts = vec![0];
        for (i, b) in text.bytes().enumerate() {
            if b == b'\n' {
                line_starts.push(i + 1);
            }
        }
        Text { line_starts }
    }

    fn range(&self, start: (usize, usize), end: (usize, usize)) -> SyntaxRange {
        SyntaxRange {
            start_byte: self.line_starts[start.0] + start.1,
            end_byte: self.line_starts[end.0] + end.1,
            start_point: Point { row: start.0, column: start.1 },
            end_point: Point { row: end.0, column: end.1 },
        }
    }

    fn node(
        &self,
        kind_id: u16,
        start: (usize, usize),
        end: (usize, usize),
        children: Vec<SyntaxNode>,
    ) -> SyntaxNode {
        SyntaxNode {
            language: Language::Wat,
            kind_id,
            field_id: None,
            is_named: true,
            is_error: false,
            is_missing: false,
            has_error: false,
            range: self.range(start, end),
            children,
        }
    }

    fn identifier(&self, line: usize, start: usize, end: usize) -> SyntaxNode {
        let mut id = self.node(IDENTIFIER_NODE, (line, start), (line, end), vec![]);
        id.field_id = Some(IDENTIFIER_FIELD);
        id
    }

    fn paren(&self, line: usize, column: usize) -> SyntaxNode {
        let mut paren = self.node(99, (line, column), (line, column + 1), vec![]);
        paren.is_named = false;
        paren
    }

    // A module field wrapper around a field of kind `kind` spanning line `line` from
    // `start` to `end`, with an identifier at `id` if given.
    fn field(&self, kind: u16, line: usize, start: usize, end: usize, id: Option<(usize, usize)>) -> SyntaxNode {
        let mut children = vec![self.paren(line, start)];
        if let Some((a, b)) = id {
            children.push(self.identifier(line, a, b));
        }
        let inner = self.node(kind, (line, start), (line, end), children);
        self.node(MODULE_FIELD, (line, start), (line, end), vec![inner])
    }
}

fn range(sl: u32, sc: u32, el: u32, ec: u32) -> Range {
    Range::new(Position::new(sl, sc), Position::new(el, ec))
}

fn symbol(name: &str, kind: SymbolKind, r: Range, selection: Range, children: Option<Vec<DocumentSymbol>>) -> DocumentSymbol {
    DocumentSymbol { name: String::from(name), kind, range: r, selection_range: selection, children }
}

const WAT: &str = "(type $a (func))\n(global $g i32 (i32.const 0))\n(memory $m 1)\n(data (i32.const 0))\n(table $t 10 funcref)\n(func $f)\n(elem (i32.const 0))\n";

fn wat_tree() -> SyntaxNode {
    let t = Text::new(WAT);
    t.node(
        PARSE,
        (0, 0),
        (7, 0),
        vec![
            t.field(TYPE, 0, 0, 16, Some((6, 8))),
            t.field(GLOBAL, 1, 0, 29, Some((8, 10))),
            t.field(MEMORY, 2, 0, 13, Some((8, 10))),
            t.field(DATA, 3, 0, 20, None),
            t.field(TABLE, 4, 0, 21, Some((7, 9))),
            t.field(FUNC, 5, 0, 9, Some((6, 8))),
            t.field(ELEM, 6, 0, 20, None),
        ],
    )
}

#[test]
fn wat() {
    let document = Document::new(Language::Wat, String::from(WAT));
    let root = wat_tree();
    let expected = vec![
        symbol("$a", SymbolKind::TypeParameter, range(0, 0, 0, 16), range(0, 6, 0, 8), Some(vec![])),
        symbol("$g", SymbolKind::Event, range(1, 0, 1, 29), range(1, 8, 1, 10), Some(vec![])),
        symbol("$m", SymbolKind::Array, range(2, 0, 2, 13), range(2, 8, 2, 10), Some(vec![])),
        symbol("<data@4:1>", SymbolKind::Key, range(3, 0, 3, 20), range(3, 0, 3, 20), Some(vec![])),
        symbol("$t", SymbolKind::Interface, range(4, 0, 4, 21), range(4, 7, 4, 9), Some(vec![])),
        symbol("$f", SymbolKind::Function, range(5, 0, 5, 9), range(5, 6, 5, 8), Some(vec![])),
        symbol("<elem@7:1>", SymbolKind::Field, range(6, 0, 6, 20), range(6, 0, 6, 20), None),
    ];
    assert_eq!(
        document_symbol(&document, &root, &kinds(MODULE)),
        Some(DocumentSymbolResponse::Nested(expected))
    );
}

const WAST: &str = "(module $m\n  (type $a (func))\n  (global $g i32 (i32.const 0))\n  (memory $m 1)\n  (data (i32.const 0))\n  (table $t 10 funcref)\n  (func $f)\n  (elem (i32.const 0)))\n(assert_return (invoke \"empty\"))\n";

fn wast_tree() -> SyntaxNode {
    let t = Text::new(WAST);
    let module = t.node(
        MODULE,
        (0, 0),
        (7, 23),
        vec![
            t.paren(0, 0),
            t.identifier(0, 8, 10),
            t.field(TYPE, 1, 2, 18, Some((8, 10))),
            t.field(GLOBAL, 2, 2, 31, Some((10, 12))),
            t.field(MEMORY, 3, 2, 15, Some((10, 12))),
            t.field(DATA, 4, 2, 22, None),
            t.field(TABLE, 5, 2, 23, Some((9, 11))),
            t.field(FUNC, 6, 2, 11, Some((8, 10))),
            t.field(ELEM, 7, 2, 22, None),
        ],
    );
    let assertion = t.node(ASSERT_RETURN, (8, 0), (8, 32), vec![t.paren(8, 0)]);
    t.node(
        PARSE,
        (0, 0),
        (9, 0),
        vec![
            t.node(COMMAND, (0, 0), (7, 23), vec![module]),
            t.node(COMMAND, (8, 0), (8, 32), vec![assertion]),
        ],
    )
}

#[test]
fn wast() {
    let document = Document::new(Language::Wast, String::from(WAST));
    let root = wast_tree();
    let fields = vec![
        symbol("$a", SymbolKind::TypeParameter, range(1, 2, 1, 18), range(1, 8, 1, 10), Some(vec![])),
        symbol("$g", SymbolKind::Event, range(2, 2, 2, 31), range(2, 10, 2, 12), Some(vec![])),
        symbol("$m", SymbolKind::Array, range(3, 2, 3, 15), range(3, 10, 3, 12), Some(vec![])),
        symbol("<data@5:3>", SymbolKind::Key, range(4, 2, 4, 22), range(4, 2, 4, 22), Some(vec![])),
        symbol("$t", SymbolKind::Interface, range(5, 2, 5, 23), range(5, 9, 5, 11), Some(vec![])),
        symbol("$f", SymbolKind::Function, range(6, 2, 6, 11), range(6, 8, 6, 10), Some(vec![])),
        symbol("<elem@8:3>", SymbolKind::Field, range(7, 2, 7, 22), range(7, 2, 7, 22), None),
    ];
    let expected = vec![symbol("$m", SymbolKind::Module, range(0, 0, 7, 23), range(0, 8, 0, 10), Some(fields))];
    assert_eq!(
        document_symbol(&document, &root, &kinds(COMMAND)),
        Some(DocumentSymbolResponse::Nested(expected))
    );
}

fn pos_le(a: Position, b: Position) -> bool {
    (a.line, a.character) <= (b.line, b.character)
}

fn within(inner: Range, outer: Range) -> bool {
    pos_le(outer.start, inner.start) && pos_le(inner.end, outer.end)
}

fn placed_in(symbols: &[DocumentSymbol], outer: Range) -> bool {
    symbols.iter().all(|s| {
        within(s.range, outer)
            && within(s.selection_range, s.range)
            && s.children.as_ref().map_or(true, |cs| placed_in(cs, s.range))
    }) && symbols.windows(2).all(|w| pos_le(w[0].range.end, w[1].range.start))
}

#[test]
fn symbols_lie_in_document_order_within_their_parents() {
    for (language, text, root, top) in [
        (Language::Wast, WAST, wast_tree(), COMMAND),
        (Language::Wat, WAT, wat_tree(), MODULE),
    ] {
        let document = Document::new(language, String::from(text));
        match document_symbol(&document, &root, &kinds(top)) {
            Some(DocumentSymbolResponse::Nested(symbols)) => {
                assert!(!symbols.is_empty());
                assert!(placed_in(&symbols, range(0, 0, root.range.end_point.row as u32, root.range.end_point.column as u32)));
            }
            other => panic!("unexpected response {:?}", other),
        }
    }
}

#[test]
fn wit_and_witx_have_no_symbols() {
    let root = wat_tree();
    let wit = Document::new(Language::Wit, String::from(WAT));
    let witx = Document::new(Language::Witx, String::from(WAT));
    assert_eq!(document_symbol(&wit, &root, &kinds(MODULE)), None);
    assert_eq!(document_symbol(&witx, &root, &kinds(MODULE)), None);
}

#[test]
fn empty_document_has_no_symbols() {
    let t = Text::new("");
    let root = t.node(PARSE, (0, 0), (0, 0), vec![]);
    assert_eq!(elaborate(&chars_of(""), &kinds(MODULE), &root), vec![]);
}

#[test]
fn symbol_range_uses_identifier_or_placeholder() {
    let text = "\n\n    (func $long_name)";
    let t = Text::new(text);
    let chars = chars_of(text);
    let named = t.field(FUNC, 2, 4, 21, Some((10, 20)));
    let inner = &named.children[0];
    let with_id = symbol_range(&chars, "func", inner, IDENTIFIER_FIELD);
    assert_eq!(with_id.name, "$long_name");
    assert_eq!(with_id.range, range(2, 4, 2, 21));
    assert_eq!(with_id.selection_range, range(2, 10, 2, 20));
    let anonymous = t.field(FUNC, 2, 4, 21, None);
    let without = symbol_range(&chars, "func", &anonymous.children[0], IDENTIFIER_FIELD);
    assert_eq!(without.name, "<func@3:5>");
    assert_eq!(without.selection_range, range(2, 4, 2, 21));
}

#[test]
fn placeholder_numbers_have_several_digits() {
    let mut text = String::new();
    for _ in 0..11 {
        text.push('\n');
    }
    text.push_str("            (data)");
    let t = Text::new(&text);
    let chars = chars_of(&text);
    let field = t.field(DATA, 11, 12, 18, None);
    let named = symbol_range(&chars, "data", &field.children[0], IDENTIFIER_FIELD);
    assert_eq!(named.name, "<data@12:13>");
}

#[test]
fn node_positions_and_range() {
    let t = Text::new("(module\n  (func))");
    let node = t.node(MODULE, (0, 0), (1, 8), vec![]);
    assert_eq!(start(&node), Position::new(0, 0));
    assert_eq!(end(&node), Position::new(1, 8));
    assert_eq!(wasm_lsp_server::elaborator::range(&node), range(0, 0, 1, 8));
}
