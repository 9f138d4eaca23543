//! Protocol data: positions, ranges and document symbols.

use vstd::prelude::*;

verus! {

/// A position in a document: zero-based line and zero-based UTF-16 column.
#[derive(Clone, Copy, Debug, PartialEq, Eq, Structural)]
pub struct Position {
    pub line: u32,
    pub character: u32,
}

impl Position {
    /// The position at `line` and `character`.
    pub fn new(line: u32, character: u32) -> (res: Position)
        ensures
            res == (Position { line, character }),
    {
        Position { line, character }
    }
}

/// A range between two positions of a document.
#[derive(Clone, Copy, Debug, PartialEq, Eq, Structural)]
pub struct Range {
    pub start: Position,
    pub end: Position,
}

impl Range {
    /// The range from `start` to `end`.
    pub fn new(start: Position, end: Position) -> (res: Range)
        ensures
            res == (Range { start, end }),
    {
        Range { start, end }
    }
}

/// Text shown to the user on hover.
#[derive(Clone, Debug, PartialEq, Eq)]
pub enum MarkedString {
    /// Text in markdown.
    String(String),
}

/// What hover shows.
#[derive(Debug, PartialEq)]
pub enum HoverContents {
    /// A list of texts.
    Array(Vec<MarkedString>),
}

/// What hover shows, and the range it is about.
#[derive(Debug, PartialEq)]
pub struct Hover {
    pub contents: HoverContents,
    pub range: Option<Range>,
}

/// How severe a diagnostic is.
#[derive(Clone, Copy, Debug, PartialEq, Eq, Structural)]
pub enum DiagnosticSeverity {
    Error,
    Warning,
    Information,
    Hint,
}

/// A problem found in a document, such as a syntax error.
#[derive(Debug, PartialEq)]
pub struct Diagnostic {
    /// Where the problem is.
    pub range: Range,
    /// How severe it is.
    pub severity: Option<DiagnosticSeverity>,
    /// What found it.
    pub source: Option<String>,
    /// What the problem is.
    pub message: String,
}

/// The kinds of document symbols that the server reports.
#[derive(Clone, Copy, Debug, PartialEq, Eq, Structural)]
pub enum SymbolKind {
    Module,
    Function,
    Field,
    Array,
    Key,
    Event,
    Interface,
    TypeParameter,
}

/// A symbol of a document, possibly with nested symbols.
#[derive(Debug, PartialEq)]
pub struct DocumentSymbol {
    /// The name of the symbol.
    pub name: String,
    /// The kind of the symbol.
    pub kind: SymbolKind,
    /// The range enclosing the symbol's whole definition.
    pub range: Range,
    /// The range to select for the symbol, such as its identifier.
    pub selection_range: Range,
    /// The symbols nested in this one.
    pub children: Option<Vec<DocumentSymbol>>,
}

/// The answer to a document symbol request: the document's symbols, nested.
#[derive(Debug, PartialEq)]
pub enum DocumentSymbolResponse {
    Nested(Vec<DocumentSymbol>),
}

/// The mathematical value of a document symbol.
pub struct SymbolView {
    pub name: Seq<char>,
    pub kind: SymbolKind,
    pub range: Range,
    pub selection_range: Range,
    pub children: Option<Seq<SymbolView>>,
}

/// The value of a document symbol.
pub open spec fn symbol_view(s: DocumentSymbol) -> SymbolView
    decreases s,
{
    SymbolView {
        name: s.name@,
        kind: s.kind,
        range: s.range,
        selection_range: s.selection_range,
        children: match s.children {
            Some(v) => Some(symbols_view(v@)),
            None => None,
        },
    }
}

/// The values of a sequence of document symbols.
pub open spec fn symbols_view(ss: Seq<DocumentSymbol>) -> Seq<SymbolView>
    decreases ss,
{
    if ss.len() == 0 {
        Seq::empty()
    } else {
        symbols_view(ss.drop_last()).push(symbol_view(ss.last()))
    }
}

impl View for DocumentSymbol {
    type V = SymbolView;

    open spec fn view(&self) -> SymbolView {
        symbol_view(*self)
    }
}

/// The values of a sequence of symbols are taken one by one.
pub proof fn lemma_symbols_view_index(ss: Seq<DocumentSymbol>)
    ensures
        symbols_view(ss).len() == ss.len(),
        forall|i: int| 0 <= i < ss.len() ==> #[trigger] symbols_view(ss)[i] == symbol_view(ss[i]),
    decreases ss.len(),
{
    if ss.len() > 0 {
        lemma_symbols_view_index(ss.drop_last());
    }
}

/// The values of concatenated symbols are the concatenated values.
pub proof fn lemma_symbols_view_concat(a: Seq<DocumentSymbol>, b: Seq<DocumentSymbol>)
    ensures
        symbols_view(a + b) == symbols_view(a) + symbols_view(b),
{
    lemma_symbols_view_index(a);
    lemma_symbols_view_index(b);
    lemma_symbols_view_index(a + b);
    assert(symbols_view(a + b) =~= symbols_view(a) + symbols_view(b));
}

} // verus!
