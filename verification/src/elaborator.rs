//! Elaborates syntax trees into the symbols of a document.

use crate::document::Document;
use crate::language::Language;
use crate::lsp::{
    DocumentSymbolResponse, lemma_symbols_view_concat, lemma_symbols_view_index, symbol_view, symbols_view, DocumentSymbol, Position,
    Range, SymbolKind, SymbolView,
};
use crate::syntax::node::{
    field_child, first_named_child, first_named_from, lemma_first_named_from_bounds, SyntaxNode,
};
use crate::syntax::range::SyntaxRange;
use crate::text::{chars_of, utf8_len};
use crate::placement::{all_placed, lemma_wf_ordered, law_document_symbols_placed, node_in_place};
use crate::util::chars_in_byte_range;
use vstd::prelude::*;

verus! {

broadcast use vstd::std_specs::vec::group_vec_axioms;

/// The grammar's ids for the node kinds and the field that symbols are built from.
#[derive(Clone, Copy, Debug, PartialEq, Eq, Structural)]
pub struct NodeKinds {
    /// The root of a document.
    pub parse: u16,
    /// A script command (a `.wast` module or assertion).
    pub command: u16,
    /// A module.
    pub module: u16,
    /// A field of a module, wrapping one of the kinds below.
    pub module_field: u16,
    pub module_field_data: u16,
    pub module_field_elem: u16,
    pub module_field_func: u16,
    pub module_field_global: u16,
    pub module_field_memory: u16,
    pub module_field_table: u16,
    pub module_field_type: u16,
    /// The kinds of the root's children that are elaborated (besides module fields).
    pub top_level: u16,
    /// The field that holds the identifier of a module or module field.
    pub identifier: u16,
}

impl NodeKinds {
    /// The node kinds are pairwise distinct, as a grammar's kinds are.
    pub open spec fn wf(&self) -> bool {
        let ks = seq![
            self.parse,
            self.command,
            self.module,
            self.module_field,
            self.module_field_data,
            self.module_field_elem,
            self.module_field_func,
            self.module_field_global,
            self.module_field_memory,
            self.module_field_table,
            self.module_field_type,
        ];
        forall|i: int, j: int| 0 <= i < j < ks.len() ==> ks[i] != ks[j]
    }

    /// Whether `kind_id` is one of the module field kinds that become symbols.
    pub open spec fn is_symbol_field(&self, kind_id: u16) -> bool {
        ||| kind_id == self.module_field_data
        ||| kind_id == self.module_field_elem
        ||| kind_id == self.module_field_func
        ||| kind_id == self.module_field_global
        ||| kind_id == self.module_field_memory
        ||| kind_id == self.module_field_table
        ||| kind_id == self.module_field_type
    }

    /// The name hint and symbol kind of a module field kind.
    pub open spec fn field_info(&self, kind_id: u16) -> (Seq<char>, SymbolKind) {
        if kind_id == self.module_field_data {
            ("data"@, SymbolKind::Key)
        } else if kind_id == self.module_field_elem {
            ("elem"@, SymbolKind::Field)
        } else if kind_id == self.module_field_func {
            ("func"@, SymbolKind::Function)
        } else if kind_id == self.module_field_global {
            ("global"@, SymbolKind::Event)
        } else if kind_id == self.module_field_memory {
            ("memory"@, SymbolKind::Array)
        } else if kind_id == self.module_field_table {
            ("table"@, SymbolKind::Interface)
        } else {
            ("type"@, SymbolKind::TypeParameter)
        }
    }
}

/// Whether byte offset `b` falls on a character boundary of `text`.
pub open spec fn is_byte_boundary(text: Seq<char>, b: int) -> bool {
    exists|i: int| 0 <= i <= text.len() && utf8_len(text.take(i)) == b
}

/// The number of characters whose encoding is `b` bytes long, at a boundary `b`.
pub open spec fn char_index_of_byte(text: Seq<char>, b: int) -> int {
    choose|i: int| 0 <= i <= text.len() && utf8_len(text.take(i)) == b
}

/// The characters of `text` within the bytes of `r`.
pub open spec fn range_text(text: Seq<char>, r: SyntaxRange) -> Seq<char> {
    text.subrange(char_index_of_byte(text, r.start_byte as int), char_index_of_byte(text, r.end_byte as int))
}

/// A node's extent is well formed for `text`: its ends are character boundaries in
/// order, and its start row and column are below the largest protocol number.
pub open spec fn range_wf(text: Seq<char>, r: SyntaxRange) -> bool {
    &&& r.start_byte <= r.end_byte
    &&& is_byte_boundary(text, r.start_byte as int)
    &&& is_byte_boundary(text, r.end_byte as int)
    &&& (r.start_point.row as u32) < u32::MAX
    &&& (r.start_point.column as u32) < u32::MAX
}

/// Every node of the tree rooted at `node` is well formed for `text`: its extent is, and
/// its children lie within it one after another, as a parser makes them.
pub open spec fn node_wf(text: Seq<char>, node: SyntaxNode) -> bool
    decreases node,
{
    range_wf(text, node.range) && node_in_place(node) && nodes_wf(text, node.children@)
}

/// Every node of the trees rooted at `nodes` is well formed for `text`.
pub open spec fn nodes_wf(text: Seq<char>, nodes: Seq<SyntaxNode>) -> bool
    decreases nodes,
{
    if nodes.len() == 0 {
        true
    } else {
        nodes_wf(text, nodes.drop_last()) && node_wf(text, nodes.last())
    }
}

/// Each of a sequence of well-formed trees is well formed.
pub proof fn lemma_nodes_wf_index(text: Seq<char>, nodes: Seq<SyntaxNode>, i: int)
    requires
        nodes_wf(text, nodes),
        0 <= i < nodes.len(),
    ensures
        node_wf(text, nodes[i]),
    decreases nodes.len(),
{
    if i < nodes.len() - 1 {
        lemma_nodes_wf_index(text, nodes.drop_last(), i);
    }
}

/// The protocol position of a syntax point.
pub open spec fn point_position(row: usize, column: usize) -> Position {
    Position { line: row as u32, character: column as u32 }
}

/// The protocol range of a syntax range.
pub open spec fn lsp_range(r: SyntaxRange) -> Range {
    Range {
        start: point_position(r.start_point.row, r.start_point.column),
        end: point_position(r.end_point.row, r.end_point.column),
    }
}

/// The character of decimal digit `d`.
pub open spec fn digit_char(d: nat) -> char {
    (48 + d) as char
}

/// The decimal numeral of `n`.
pub open spec fn decimal(n: nat) -> Seq<char>
    decreases n,
{
    if n < 10 {
        seq![digit_char(n)]
    } else {
        decimal(n / 10).push(digit_char(n % 10))
    }
}

/// The name of a symbol without identifier: `<hint@line:column>`, counting from one.
pub open spec fn placeholder_name(hint: Seq<char>, r: Range) -> Seq<char> {
    "<"@ + hint + "@"@ + decimal((r.start.line + 1) as nat) + ":"@ + decimal((r.start.character + 1) as nat) + ">"@
}

/// The name of the symbol for `node`: the text of its identifier, or a placeholder.
pub open spec fn symbol_name(text: Seq<char>, hint: Seq<char>, node: SyntaxNode, field_id: u16) -> Seq<char> {
    match field_child(node, field_id) {
        Some(inner) => range_text(text, inner.range),
        None => placeholder_name(hint, lsp_range(node.range)),
    }
}

/// The selection range of the symbol for `node`: that of its identifier, or its own.
pub open spec fn symbol_selection(node: SyntaxNode, field_id: u16) -> Range {
    match field_child(node, field_id) {
        Some(inner) => lsp_range(inner.range),
        None => lsp_range(node.range),
    }
}

/// The symbol of a module field node.
pub open spec fn field_symbol(text: Seq<char>, k: NodeKinds, node: SyntaxNode) -> SymbolView {
    let (hint, kind) = k.field_info(node.kind_id);
    SymbolView {
        name: symbol_name(text, hint, node, k.identifier),
        kind,
        range: lsp_range(node.range),
        selection_range: symbol_selection(node, k.identifier),
        children: Some(Seq::empty()),
    }
}

/// The symbols of the fields among the children `cs` of a module, in order.
pub open spec fn module_children(text: Seq<char>, k: NodeKinds, cs: Seq<SyntaxNode>) -> Seq<SymbolView>
    decreases cs.len(),
{
    if cs.len() == 0 {
        Seq::empty()
    } else {
        module_children(text, k, cs.drop_last()) + module_field_symbols(text, k, cs.last())
    }
}

/// The symbol of a module field wrapper, if it wraps a field that becomes a symbol.
pub open spec fn module_field_symbols(text: Seq<char>, k: NodeKinds, node: SyntaxNode) -> Seq<SymbolView> {
    if node.kind_id == k.module_field {
        match first_named_child(node) {
            Some(c) => if k.is_symbol_field(c.kind_id) {
                seq![field_symbol(text, k, c)]
            } else {
                Seq::empty()
            },
            None => Seq::empty(),
        }
    } else {
        Seq::empty()
    }
}

/// The symbol of a module node, with the symbols of its fields nested.
pub open spec fn module_symbol(text: Seq<char>, k: NodeKinds, node: SyntaxNode) -> SymbolView {
    SymbolView {
        name: symbol_name(text, "module"@, node, k.identifier),
        kind: SymbolKind::Module,
        range: lsp_range(node.range),
        selection_range: symbol_selection(node, k.identifier),
        children: Some(module_children(text, k, node.children@)),
    }
}

/// The symbols of the tree rooted at `node`, in document order, before the first
/// completed symbol loses its children list.
pub open spec fn node_symbols(text: Seq<char>, k: NodeKinds, node: SyntaxNode) -> Seq<SymbolView>
    decreases node,
{
    if node.kind_id == k.parse {
        top_symbols(text, k, node.children@)
    } else if node.kind_id == k.command {
        match first_named_from(node.children@, 0) {
            Some(i) => {
                proof {
                    lemma_first_named_from_bounds(node.children@, 0);
                    assert(decreases_to!(node.children => node.children[i]));
                }
                node_symbols(text, k, node.children@[i])
            },
            None => Seq::empty(),
        }
    } else if node.kind_id == k.module {
        seq![module_symbol(text, k, node)]
    } else if node.kind_id == k.module_field {
        module_field_symbols(text, k, node)
    } else if k.is_symbol_field(node.kind_id) {
        seq![field_symbol(text, k, node)]
    } else {
        Seq::empty()
    }
}

/// The symbols of the elaborated children `cs` of a document root, in order.
pub open spec fn top_symbols(text: Seq<char>, k: NodeKinds, cs: Seq<SyntaxNode>) -> Seq<SymbolView>
    decreases cs,
{
    if cs.len() == 0 {
        Seq::empty()
    } else {
        let last = cs.last();
        top_symbols(text, k, cs.drop_last()) + if last.kind_id == k.top_level || last.kind_id
            == k.module_field {
            node_symbols(text, k, last)
        } else {
            Seq::empty()
        }
    }
}

/// The symbols with the children list of the rightmost innermost symbol removed: that
/// symbol is the first one completed, when no other symbol was at hand.
pub open spec fn mark_rightmost(ss: Seq<SymbolView>) -> Seq<SymbolView>
    decreases ss,
{
    if ss.len() == 0 {
        ss
    } else {
        ss.drop_last().push(mark_symbol(ss.last()))
    }
}

/// `s` with its rightmost innermost symbol's children list removed.
pub open spec fn mark_symbol(s: SymbolView) -> SymbolView
    decreases s,
{
    let children = match s.children {
        Some(c) => if c.len() > 0 {
            Some(mark_rightmost(c))
        } else {
            None
        },
        None => None,
    };
    SymbolView {
        name: s.name,
        kind: s.kind,
        range: s.range,
        selection_range: s.selection_range,
        children,
    }
}

/// The symbols of the first `j` elaborated children begin those of all of them.
proof fn lemma_top_symbols_prefix(text: Seq<char>, k: NodeKinds, cs: Seq<SyntaxNode>, j: int)
    requires
        0 <= j <= cs.len(),
    ensures
        top_symbols(text, k, cs.take(j)).len() <= top_symbols(text, k, cs).len(),
        top_symbols(text, k, cs).take(top_symbols(text, k, cs.take(j)).len() as int) == top_symbols(
            text,
            k,
            cs.take(j),
        ),
    decreases cs.len(),
{
    if j == cs.len() {
        assert(cs.take(j) =~= cs);
    } else {
        let d = cs.drop_last();
        lemma_top_symbols_prefix(text, k, d, j);
        assert(d.take(j) =~= cs.take(j));
        let n = top_symbols(text, k, cs.take(j)).len() as int;
        let whole = top_symbols(text, k, cs);
        assert(whole.take(n) =~= top_symbols(text, k, d).take(n));
    }
}

/// Marking the rightmost symbol keeps the name, kind, range and selection of each symbol.
proof fn lemma_mark_rightmost_keeps(ss: Seq<SymbolView>, j: int)
    requires
        0 <= j < ss.len(),
    ensures
        mark_rightmost(ss).len() == ss.len(),
        mark_rightmost(ss)[j].name == ss[j].name,
        mark_rightmost(ss)[j].kind == ss[j].kind,
        mark_rightmost(ss)[j].range == ss[j].range,
        mark_rightmost(ss)[j].selection_range == ss[j].selection_range,
{
}

/// A module among the root's children of a document whose top-level kind is the module
/// kind (a `.wat` document) has a symbol of kind `Module`, named after its identifier (or
/// a placeholder), with the module's range and the identifier's as its selection.
pub proof fn law_top_level_module_has_a_symbol(text: Seq<char>, k: NodeKinds, root: SyntaxNode, i: int)
    requires
        k.wf(),
        k.top_level == k.module,
        root.kind_id == k.parse,
        0 <= i < root.children@.len(),
        root.children@[i].kind_id == k.module,
    ensures
        exists|j: int|
            #![trigger document_symbols(text, k, root)[j]]
            0 <= j < document_symbols(text, k, root).len() && document_symbols(text, k, root)[j].kind
                == SymbolKind::Module && document_symbols(text, k, root)[j].range == lsp_range(
                root.children@[i].range,
            ) && document_symbols(text, k, root)[j].selection_range == symbol_selection(
                root.children@[i],
                k.identifier,
            ) && document_symbols(text, k, root)[j].name == symbol_name(
                text,
                "module"@,
                root.children@[i],
                k.identifier,
            ),
{
    let cs = root.children@;
    let c = cs[i];
    let ks = seq![
        k.parse,
        k.command,
        k.module,
        k.module_field,
        k.module_field_data,
        k.module_field_elem,
        k.module_field_func,
        k.module_field_global,
        k.module_field_memory,
        k.module_field_table,
        k.module_field_type,
    ];
    assert(ks[0] != ks[2] && ks[1] != ks[2]);
    assert(k.parse != k.module && k.command != k.module);
    assert(node_symbols(text, k, c) == seq![module_symbol(text, k, c)]);
    let before = top_symbols(text, k, cs.take(i));
    assert(cs.take(i + 1).drop_last() =~= cs.take(i));
    assert(cs.take(i + 1).last() == c);
    assert(top_symbols(text, k, cs.take(i + 1)) == before + seq![module_symbol(text, k, c)]);
    lemma_top_symbols_prefix(text, k, cs, i + 1);
    let ss = top_symbols(text, k, cs);
    let j = before.len() as int;
    assert(ss[j] == (before + seq![module_symbol(text, k, c)])[j]);
    assert(node_symbols(text, k, root) == ss);
    lemma_mark_rightmost_keeps(ss, j);
    assert(document_symbols(text, k, root)[j].kind == SymbolKind::Module);
}

/// A module field among the root's children, wrapping a field that becomes a symbol, has a
/// symbol of the field's kind with the field's range, in `.wat` and `.wast` documents.
pub proof fn law_top_level_field_has_a_symbol(text: Seq<char>, k: NodeKinds, root: SyntaxNode, i: int)
    requires
        k.wf(),
        root.kind_id == k.parse,
        0 <= i < root.children@.len(),
        root.children@[i].kind_id == k.module_field,
        first_named_child(root.children@[i]) matches Some(f) && k.is_symbol_field(f.kind_id),
    ensures
        exists|j: int|
            #![trigger document_symbols(text, k, root)[j]]
            0 <= j < document_symbols(text, k, root).len() && document_symbols(text, k, root)[j].kind
                == k.field_info(first_named_child(root.children@[i])->0.kind_id).1 && document_symbols(
                text,
                k,
                root,
            )[j].range == lsp_range(first_named_child(root.children@[i])->0.range),
{
    let cs = root.children@;
    let c = cs[i];
    let f = first_named_child(c)->0;
    let ks = seq![
        k.parse,
        k.command,
        k.module,
        k.module_field,
        k.module_field_data,
        k.module_field_elem,
        k.module_field_func,
        k.module_field_global,
        k.module_field_memory,
        k.module_field_table,
        k.module_field_type,
    ];
    assert(ks[0] != ks[3] && ks[1] != ks[3] && ks[2] != ks[3]);
    assert(node_symbols(text, k, c) == seq![field_symbol(text, k, f)]);
    let before = top_symbols(text, k, cs.take(i));
    assert(cs.take(i + 1).drop_last() =~= cs.take(i));
    assert(cs.take(i + 1).last() == c);
    assert(top_symbols(text, k, cs.take(i + 1)) == before + seq![field_symbol(text, k, f)]);
    lemma_top_symbols_prefix(text, k, cs, i + 1);
    let ss = top_symbols(text, k, cs);
    let j = before.len() as int;
    assert(ss[j] == (before + seq![field_symbol(text, k, f)])[j]);
    assert(node_symbols(text, k, root) == ss);
    lemma_mark_rightmost_keeps(ss, j);
    assert(document_symbols(text, k, root)[j].range == lsp_range(f.range));
}

/// The symbols of a document whose syntax tree is rooted at `root`.
pub open spec fn document_symbols(text: Seq<char>, k: NodeKinds, root: SyntaxNode) -> Seq<SymbolView> {
    mark_rightmost(node_symbols(text, k, root))
}


/// The character of decimal digit `d`.
fn digit(d: u64) -> (res: char)
    requires
        d < 10,
    ensures
        res == digit_char(d as nat),
{
    let b: u8 = 48u8 + (d as u8);
    b as char
}

/// Appends the decimal numeral of `n` to `out`.
fn push_decimal(out: &mut Vec<char>, n: u64)
    ensures
        final(out)@ == old(out)@ + decimal(n as nat),
    decreases n,
{
    if n >= 10 {
        push_decimal(out, n / 10);
    }
    out.push(digit(n % 10));
    proof {
        if n >= 10 {
            assert(decimal(n as nat) == decimal((n / 10) as nat).push(digit_char((n % 10) as nat)));
        }
    }
}

/// Appends the characters of `s` to `out`.
fn push_str(out: &mut Vec<char>, s: &str)
    ensures
        final(out)@ == old(out)@ + s@,
{
    let mut cs = chars_of(s);
    out.append(&mut cs);
}

/// The protocol range of a syntax range, rows and columns truncated to `u32`.
pub fn node_range(r: &SyntaxRange) -> (res: Range)
    ensures
        res == lsp_range(*r),
{
    Range::new(
        Position::new(r.start_point.row as u32, r.start_point.column as u32),
        Position::new(r.end_point.row as u32, r.end_point.column as u32),
    )
}

/// The protocol position at which `node` begins.
pub fn start(node: &SyntaxNode) -> (res: Position)
    ensures
        res == lsp_range(node.range).start,
{
    Position::new(node.range.start_point.row as u32, node.range.start_point.column as u32)
}

/// The protocol position at which `node` ends.
pub fn end(node: &SyntaxNode) -> (res: Position)
    ensures
        res == lsp_range(node.range).end,
{
    Position::new(node.range.end_point.row as u32, node.range.end_point.column as u32)
}

/// The protocol range of `node`.
pub fn range(node: &SyntaxNode) -> (res: Range)
    ensures
        res == lsp_range(node.range),
{
    Range::new(start(node), end(node))
}

/// The characters of `text` within the bytes of `r`.
pub(crate) fn node_text(text: &Vec<char>, r: &SyntaxRange) -> (res: Vec<char>)
    requires
        range_wf(text@, *r),
        utf8_len(text@) <= usize::MAX,
    ensures
        res@ == range_text(text@, *r),
{
    let ghost lo = char_index_of_byte(text@, r.start_byte as int);
    let ghost hi = char_index_of_byte(text@, r.end_byte as int);
    proof {
        if hi < lo {
            crate::text::lemma_prefix_lengths_increase(text@, hi, lo);
        }
    }
    chars_in_byte_range(text, r.start_byte, r.end_byte, Ghost(lo), Ghost(hi))
}

/// A symbol's name and ranges.
pub struct SymbolRange {
    /// The name (identifier) of the symbol.
    pub name: String,
    /// The (node-enclosing) range of the symbol.
    pub range: Range,
    /// The (identifier-enclosing) range of the symbol.
    pub selection_range: Range,
}

/// The name and ranges of the symbol for `node`: the text and range of its child in
/// field `field_id`, or the placeholder `<empty_name@line:column>` and its own range.
pub fn symbol_range(text: &Vec<char>, empty_name: &str, node: &SyntaxNode, field_id: u16) -> (res: SymbolRange)
    requires
        node_wf(text@, *node),
        utf8_len(text@) <= usize::MAX,
    ensures
        res.name@ == symbol_name(text@, empty_name@, *node, field_id),
        res.range == lsp_range(node.range),
        res.selection_range == symbol_selection(*node, field_id),
{
    let range = node_range(&node.range);
    if let Some(inner_node) = node.child_by_field_id(field_id) {
        proof {
            crate::syntax::node::lemma_first_in_field_from_bounds(node.children@, field_id, 0);
            let i = crate::syntax::node::first_in_field_from(node.children@, field_id, 0)->0;
            lemma_nodes_wf_index(text@, node.children@, i);
        }
        let name = node_text(text, &inner_node.range);
        SymbolRange {
            name: crate::text::string_from_chars(&name),
            range,
            selection_range: node_range(&inner_node.range),
        }
    } else {
        let mut name: Vec<char> = Vec::new();
        name.push('<');
        push_str(&mut name, empty_name);
        name.push('@');
        push_decimal(&mut name, range.start.line as u64 + 1);
        name.push(':');
        push_decimal(&mut name, range.start.character as u64 + 1);
        name.push('>');
        proof {
            reveal_strlit("<");
            reveal_strlit("@");
            reveal_strlit(":");
            reveal_strlit(">");
            assert(name@ =~= placeholder_name(empty_name@, range));
        }
        SymbolRange { name: crate::text::string_from_chars(&name), range, selection_range: range }
    }
}


/// Whether `kind_id` is one of the module field kinds that become symbols.
fn is_symbol_field(k: &NodeKinds, kind_id: u16) -> (res: bool)
    ensures
        res == k.is_symbol_field(kind_id),
{
    kind_id == k.module_field_data || kind_id == k.module_field_elem || kind_id == k.module_field_func
        || kind_id == k.module_field_global || kind_id == k.module_field_memory || kind_id
        == k.module_field_table || kind_id == k.module_field_type
}

/// The name hint and symbol kind of a module field kind.
fn field_info(k: &NodeKinds, kind_id: u16) -> (res: (&'static str, SymbolKind))
    ensures
        res.0@ == k.field_info(kind_id).0,
        res.1 == k.field_info(kind_id).1,
{
    if kind_id == k.module_field_data {
        ("data", SymbolKind::Key)
    } else if kind_id == k.module_field_elem {
        ("elem", SymbolKind::Field)
    } else if kind_id == k.module_field_func {
        ("func", SymbolKind::Function)
    } else if kind_id == k.module_field_global {
        ("global", SymbolKind::Event)
    } else if kind_id == k.module_field_memory {
        ("memory", SymbolKind::Array)
    } else if kind_id == k.module_field_table {
        ("table", SymbolKind::Interface)
    } else {
        ("type", SymbolKind::TypeParameter)
    }
}

/// The symbol of a module field node.
fn field_symbol_of(text: &Vec<char>, k: &NodeKinds, node: &SyntaxNode) -> (res: DocumentSymbol)
    requires
        node_wf(text@, *node),
        utf8_len(text@) <= usize::MAX,
    ensures
        res@ == field_symbol(text@, *k, *node),
{
    let (hint, kind) = field_info(k, node.kind_id);
    let SymbolRange { name, range, selection_range } = symbol_range(text, hint, node, k.identifier);
    let res = DocumentSymbol { name, kind, range, selection_range, children: Some(Vec::new()) };
    proof {
        assert(symbols_view(Seq::<DocumentSymbol>::empty()) =~= Seq::<SymbolView>::empty());
    }
    res
}

/// The first named child of a node of a well-formed tree is well formed and smaller.
proof fn lemma_first_named_child_wf(text: Seq<char>, node: SyntaxNode)
    requires
        node_wf(text, node),
    ensures
        first_named_child(node) matches Some(c) ==> node_wf(text, c),
{
    lemma_first_named_from_bounds(node.children@, 0);
    if let Some(i) = first_named_from(node.children@, 0) {
        lemma_nodes_wf_index(text, node.children@, i);
    }
}

/// The symbols of a module field wrapper.
fn module_field_symbols_of(text: &Vec<char>, k: &NodeKinds, node: &SyntaxNode) -> (res: Vec<DocumentSymbol>)
    requires
        node_wf(text@, *node),
        utf8_len(text@) <= usize::MAX,
    ensures
        symbols_view(res@) == module_field_symbols(text@, *k, *node),
{
    if node.kind_id == k.module_field {
        if let Some(c) = node.first_named_child() {
            if is_symbol_field(k, c.kind_id) {
                proof {
                    lemma_first_named_child_wf(text@, *node);
                }
                let sym = field_symbol_of(text, k, c);
                let mut res: Vec<DocumentSymbol> = Vec::new();
                res.push(sym);
                proof {
                    assert(res@.drop_last() =~= Seq::<DocumentSymbol>::empty());
                    assert(symbols_view(Seq::<DocumentSymbol>::empty()) =~= Seq::<SymbolView>::empty());
                    assert(symbols_view(res@) =~= seq![sym@]);
                }
                return res;
            }
        }
    }
    let res: Vec<DocumentSymbol> = Vec::new();
    proof {
        assert(symbols_view(res@) =~= Seq::<SymbolView>::empty());
    }
    res
}

/// The symbol of a module node, with the symbols of its fields nested.
fn module_symbol_of(text: &Vec<char>, k: &NodeKinds, node: &SyntaxNode) -> (res: DocumentSymbol)
    requires
        node_wf(text@, *node),
        utf8_len(text@) <= usize::MAX,
    ensures
        res@ == module_symbol(text@, *k, *node),
{
    let SymbolRange { name, range, selection_range } = symbol_range(text, "module", node, k.identifier);
    let mut children: Vec<DocumentSymbol> = Vec::new();
    let ghost cs = node.children@;
    let mut i: usize = 0;
    proof {
        assert(cs.take(0) =~= Seq::<SyntaxNode>::empty());
        assert(symbols_view(children@) =~= module_children(text@, *k, cs.take(0)));
    }
    while i < node.children.len()
        invariant
            cs == node.children@,
            node_wf(text@, *node),
            utf8_len(text@) <= usize::MAX,
            i <= cs.len(),
            symbols_view(children@) == module_children(text@, *k, cs.take(i as int)),
        decreases cs.len() - i,
    {
        proof {
            lemma_nodes_wf_index(text@, cs, i as int);
        }
        let mut more = module_field_symbols_of(text, k, &node.children[i]);
        let ghost before = children@;
        let ghost added = more@;
        children.append(&mut more);
        proof {
            lemma_symbols_view_concat(before, added);
            assert(cs.take(i as int + 1).drop_last() =~= cs.take(i as int));
            assert(cs.take(i as int + 1).last() == cs[i as int]);
        }
        i = i + 1;
    }
    proof {
        assert(cs.take(cs.len() as int) =~= cs);
    }
    DocumentSymbol { name, kind: SymbolKind::Module, range, selection_range, children: Some(children) }
}


/// The symbols of the tree rooted at `node`, in document order.
fn node_symbols_of(text: &Vec<char>, k: &NodeKinds, node: &SyntaxNode) -> (res: Vec<DocumentSymbol>)
    requires
        node_wf(text@, *node),
        utf8_len(text@) <= usize::MAX,
    ensures
        symbols_view(res@) == node_symbols(text@, *k, *node),
    decreases *node, 1nat,
{
    if node.kind_id == k.parse {
        proof {
            assert(decreases_to!(*node => node.children));
        }
        top_symbols_of(text, k, &node.children)
    } else if node.kind_id == k.command {
        proof {
            lemma_first_named_from_bounds(node.children@, 0);
            lemma_first_named_child_wf(text@, *node);
        }
        match node.first_named_child() {
            Some(c) => {
                proof {
                    let i = first_named_from(node.children@, 0)->0;
                    assert(decreases_to!(node.children => node.children[i]));
                    assert(decreases_to!(*node => node.children));
                }
                node_symbols_of(text, k, c)
            },
            None => {
                let res: Vec<DocumentSymbol> = Vec::new();
                proof {
                    assert(symbols_view(res@) =~= Seq::<SymbolView>::empty());
                }
                res
            },
        }
    } else if node.kind_id == k.module {
        let sym = module_symbol_of(text, k, node);
        let mut res: Vec<DocumentSymbol> = Vec::new();
        res.push(sym);
        proof {
            assert(res@.drop_last() =~= Seq::<DocumentSymbol>::empty());
            assert(symbols_view(Seq::<DocumentSymbol>::empty()) =~= Seq::<SymbolView>::empty());
            assert(symbols_view(res@) =~= seq![sym@]);
        }
        res
    } else if node.kind_id == k.module_field {
        module_field_symbols_of(text, k, node)
    } else if is_symbol_field(k, node.kind_id) {
        let sym = field_symbol_of(text, k, node);
        let mut res: Vec<DocumentSymbol> = Vec::new();
        res.push(sym);
        proof {
            assert(res@.drop_last() =~= Seq::<DocumentSymbol>::empty());
            assert(symbols_view(Seq::<DocumentSymbol>::empty()) =~= Seq::<SymbolView>::empty());
            assert(symbols_view(res@) =~= seq![sym@]);
        }
        res
    } else {
        let res: Vec<DocumentSymbol> = Vec::new();
        proof {
            assert(symbols_view(res@) =~= Seq::<SymbolView>::empty());
        }
        res
    }
}

/// The symbols of the elaborated children `cs` of a document root, in order.
fn top_symbols_of(text: &Vec<char>, k: &NodeKinds, cs: &Vec<SyntaxNode>) -> (res: Vec<DocumentSymbol>)
    requires
        nodes_wf(text@, cs@),
        utf8_len(text@) <= usize::MAX,
    ensures
        symbols_view(res@) == top_symbols(text@, *k, cs@),
    decreases *cs, 0nat,
{
    let mut res: Vec<DocumentSymbol> = Vec::new();
    let mut i: usize = 0;
    proof {
        assert(cs@.take(0) =~= Seq::<SyntaxNode>::empty());
        assert(symbols_view(res@) =~= top_symbols(text@, *k, cs@.take(0)));
    }
    while i < cs.len()
        invariant
            nodes_wf(text@, cs@),
            utf8_len(text@) <= usize::MAX,
            i <= cs@.len(),
            symbols_view(res@) == top_symbols(text@, *k, cs@.take(i as int)),
        decreases cs@.len() - i,
    {
        let c = &cs[i];
        proof {
            lemma_nodes_wf_index(text@, cs@, i as int);
            assert(cs@.take(i as int + 1).drop_last() =~= cs@.take(i as int));
            assert(cs@.take(i as int + 1).last() == cs@[i as int]);
        }
        if c.kind_id == k.top_level || c.kind_id == k.module_field {
            proof {
                assert(decreases_to!(*cs => cs[i as int]));
            }
            let mut more = node_symbols_of(text, k, c);
            let ghost before = res@;
            let ghost added = more@;
            res.append(&mut more);
            proof {
                lemma_symbols_view_concat(before, added);
            }
        } else {
            proof {
                assert(res@ =~= res@ + Seq::<DocumentSymbol>::empty());
                lemma_symbols_view_concat(res@, Seq::<DocumentSymbol>::empty());
                assert(symbols_view(Seq::<DocumentSymbol>::empty()) =~= Seq::<SymbolView>::empty());
            }
        }
        i = i + 1;
    }
    proof {
        assert(cs@.take(cs@.len() as int) =~= cs@);
    }
    res
}


/// Removes the children list of the rightmost innermost symbol of `syms`.
fn mark_rightmost_of(syms: &mut Vec<DocumentSymbol>)
    ensures
        symbols_view(final(syms)@) == mark_rightmost(symbols_view(old(syms)@)),
    decreases *old(syms),
{
    if syms.len() == 0 {
        return ;
    }
    let ghost old_syms = syms@;
    let last = syms.pop().unwrap();
    proof {
        assert(old_syms.drop_last() =~= syms@);
        assert(last == old_syms[old_syms.len() - 1]);
    }
    let DocumentSymbol { name, kind, range, selection_range, children } = last;
    let new_children = match children {
        Some(mut cs) => {
            if cs.len() > 0 {
                proof {
                    assert(decreases_to!(*old(syms) => old_syms[old_syms.len() - 1]));
                    lemma_symbols_view_index(cs@);
                }
                mark_rightmost_of(&mut cs);
                Some(cs)
            } else {
                proof {
                    lemma_symbols_view_index(cs@);
                }
                None
            }
        },
        None => None,
    };
    let marked = DocumentSymbol { name, kind, range, selection_range, children: new_children };
    syms.push(marked);
    proof {
        assert(syms@.drop_last() =~= old_syms.drop_last());
        assert(symbol_view(marked) == mark_symbol(symbol_view(last)));
    }
}

/// The symbols of a document, given the characters of its text, the grammar's node kinds
/// and the root of its syntax tree.
pub fn elaborate(text: &Vec<char>, k: &NodeKinds, root: &SyntaxNode) -> (res: Vec<DocumentSymbol>)
    requires
        node_wf(text@, *root),
        utf8_len(text@) <= usize::MAX,
    ensures
        symbols_view(res@) == document_symbols(text@, *k, *root),
{
    let mut syms = node_symbols_of(text, k, root);
    mark_rightmost_of(&mut syms);
    syms
}

/// The symbols of `document`, whose syntax tree is rooted at `root`, for the grammar
/// whose node kinds are `kinds`: nested symbols for `.wast` and `.wat` documents, none for
/// the others.
pub fn document_symbol(document: &Document, root: &SyntaxNode, kinds: &NodeKinds) -> (res: Option<DocumentSymbolResponse>)
    requires
        document.language is Wast || document.language is Wat ==> node_wf(document.text(), *root),
    ensures
        match document.language {
            Language::Wast | Language::Wat => res matches Some(DocumentSymbolResponse::Nested(syms))
                && symbols_view(syms@) == document_symbols(document.text(), *kinds, *root)
                && all_placed(symbols_view(syms@), lsp_range(root.range)),
            Language::Wit | Language::Witx => res is None,
        },
{
    match document.language {
        Language::Wast | Language::Wat => {
            proof {
                lemma_wf_ordered(document.text(), *root);
                law_document_symbols_placed(document.text(), *kinds, *root);
            }
            let _ = document.len_bytes();
            let source = document.to_text();
            let text = chars_of(source.as_str());
            Some(DocumentSymbolResponse::Nested(elaborate(&text, kinds, root)))
        },
        Language::Wit | Language::Witx => None,
    }
}

} // verus!
