//! Where document symbols lie: in document order, each inside the range of the symbol
//! that holds it, and each selection inside its symbol, for trees whose nodes are ordered
//! and nested as a parser makes them.

use crate::elaborator::{
    document_symbols, field_symbol, lsp_range, node_wf, nodes_wf, mark_rightmost, mark_symbol, module_children,
    module_field_symbols, module_symbol, node_symbols, point_position, symbol_selection, top_symbols,
    NodeKinds,
};
use crate::lsp::{Position, Range, SymbolView};
use crate::syntax::node::{
    field_child, first_in_field_from, first_named_child, first_named_from,
    lemma_first_in_field_from_bounds, lemma_first_named_from_bounds, SyntaxNode,
};
use crate::syntax::range::Point;
use vstd::prelude::*;

verus! {

/// Whether point `a` comes at or before point `b`.
pub open spec fn point_le(a: Point, b: Point) -> bool {
    a.row < b.row || (a.row == b.row && a.column <= b.column)
}

/// Whether position `a` comes at or before position `b`.
pub open spec fn pos_le(a: Position, b: Position) -> bool {
    a.line < b.line || (a.line == b.line && a.character <= b.character)
}

/// Whether `inner` lies within `outer`.
pub open spec fn within(inner: Range, outer: Range) -> bool {
    pos_le(outer.start, inner.start) && pos_le(inner.end, outer.end)
}

/// Whether a point's row and column are protocol numbers.
pub open spec fn point_fits(p: Point) -> bool {
    p.row <= u32::MAX && p.column <= u32::MAX
}

/// Whether the node's own extent is in order, its points are protocol numbers, and its
/// children lie within it, one after another.
pub open spec fn node_in_place(n: SyntaxNode) -> bool {
    let cs = n.children@;
    &&& point_fits(n.range.start_point)
    &&& point_fits(n.range.end_point)
    &&& point_le(n.range.start_point, n.range.end_point)
    &&& forall|i: int|
        0 <= i < cs.len() ==> point_le(n.range.start_point, #[trigger] cs[i].range.start_point)
            && point_le(cs[i].range.end_point, n.range.end_point)
    &&& forall|i: int, j: int|
        0 <= i < j < cs.len() ==> point_le(#[trigger] cs[i].range.end_point, #[trigger] cs[j].range.start_point)
}

/// Whether every node of the tree rooted at `n` is in place.
pub open spec fn tree_ordered(n: SyntaxNode) -> bool
    decreases n,
{
    node_in_place(n) && trees_ordered(n.children@)
}

/// Whether every node of the trees rooted at `ns` is in place.
pub open spec fn trees_ordered(ns: Seq<SyntaxNode>) -> bool
    decreases ns,
{
    if ns.len() == 0 {
        true
    } else {
        trees_ordered(ns.drop_last()) && tree_ordered(ns.last())
    }
}

/// Each of a sequence of ordered trees is ordered.
pub proof fn lemma_trees_ordered_index(ns: Seq<SyntaxNode>, i: int)
    requires
        trees_ordered(ns),
        0 <= i < ns.len(),
    ensures
        tree_ordered(ns[i]),
    decreases ns.len(),
{
    if i < ns.len() - 1 {
        lemma_trees_ordered_index(ns.drop_last(), i);
    }
}

/// A tree that is well formed for some text is ordered.
pub proof fn lemma_wf_ordered(text: Seq<char>, n: SyntaxNode)
    requires
        node_wf(text, n),
    ensures
        tree_ordered(n),
    decreases n,
{
    lemma_wfs_ordered(text, n.children@);
}

/// Trees that are well formed for some text are ordered.
pub proof fn lemma_wfs_ordered(text: Seq<char>, ns: Seq<SyntaxNode>)
    requires
        nodes_wf(text, ns),
    ensures
        trees_ordered(ns),
    decreases ns,
{
    if ns.len() > 0 {
        lemma_wfs_ordered(text, ns.drop_last());
        lemma_wf_ordered(text, ns.last());
    }
}

/// Whether the symbols `ss` lie within `outer`, one after another.
pub open spec fn in_sequence(ss: Seq<SymbolView>, outer: Range) -> bool {
    &&& forall|i: int| 0 <= i < ss.len() ==> within(#[trigger] ss[i].range, outer)
    &&& forall|i: int, j: int|
        0 <= i < j < ss.len() ==> pos_le(#[trigger] ss[i].range.end, #[trigger] ss[j].range.start)
}

/// Whether the symbol's range is in order, its selection lies within it, and its children,
/// if any, lie within it in document order and are placed so in turn.
pub open spec fn placed(s: SymbolView) -> bool
    decreases s,
{
    &&& pos_le(s.range.start, s.range.end)
    &&& within(s.selection_range, s.range)
    &&& match s.children {
        Some(cs) => in_sequence(cs, s.range) && placed_each(cs),
        None => true,
    }
}

/// Whether each of the symbols is placed.
pub open spec fn placed_each(ss: Seq<SymbolView>) -> bool
    decreases ss,
{
    if ss.len() == 0 {
        true
    } else {
        placed_each(ss.drop_last()) && placed(ss.last())
    }
}

/// Whether the symbols lie within `outer` in document order and each is placed.
pub open spec fn all_placed(ss: Seq<SymbolView>, outer: Range) -> bool {
    in_sequence(ss, outer) && placed_each(ss)
}

proof fn lemma_placed_each_index(ss: Seq<SymbolView>, i: int)
    requires
        placed_each(ss),
        0 <= i < ss.len(),
    ensures
        placed(ss[i]),
    decreases ss.len(),
{
    if i < ss.len() - 1 {
        lemma_placed_each_index(ss.drop_last(), i);
    }
}

proof fn lemma_placed_each_concat(a: Seq<SymbolView>, b: Seq<SymbolView>)
    requires
        placed_each(a),
        placed_each(b),
    ensures
        placed_each(a + b),
    decreases b.len(),
{
    if b.len() == 0 {
        assert(a + b =~= a);
    } else {
        lemma_placed_each_concat(a, b.drop_last());
        assert((a + b).drop_last() =~= a + b.drop_last());
    }
}

proof fn lemma_pos_le_trans(a: Position, b: Position, c: Position)
    requires
        pos_le(a, b),
        pos_le(b, c),
    ensures
        pos_le(a, c),
{
}

/// Symbols in place within a range stay in place within any range around it.
proof fn lemma_in_sequence_widen(ss: Seq<SymbolView>, inner: Range, outer: Range)
    requires
        in_sequence(ss, inner),
        within(inner, outer),
    ensures
        in_sequence(ss, outer),
{
}

/// Two runs of symbols, the first ending before the second begins, run on together.
proof fn lemma_all_placed_concat(a: Seq<SymbolView>, b: Seq<SymbolView>, outer: Range, p: Position)
    requires
        all_placed(a, outer),
        all_placed(b, outer),
        forall|i: int| 0 <= i < a.len() ==> pos_le(#[trigger] a[i].range.end, p),
        forall|i: int| 0 <= i < b.len() ==> pos_le(p, #[trigger] b[i].range.start),
    ensures
        all_placed(a + b, outer),
{
    lemma_placed_each_concat(a, b);
    let ab = a + b;
    assert forall|i: int| 0 <= i < ab.len() implies within(#[trigger] ab[i].range, outer) by {
        if i < a.len() {
            assert(ab[i] == a[i]);
        } else {
            assert(ab[i] == b[i - a.len()]);
        }
    }
    assert forall|i: int, j: int| 0 <= i < j < ab.len() implies pos_le(#[trigger] ab[i].range.end, #[trigger] ab[j].range.start) by {
        if j < a.len() {
            assert(ab[i] == a[i] && ab[j] == a[j]);
            assert(pos_le(a[i].range.end, a[j].range.start));
        } else if i >= a.len() {
            assert(ab[i] == b[i - a.len()] && ab[j] == b[j - a.len()]);
            assert(pos_le(b[i - a.len()].range.end, b[j - a.len()].range.start));
        } else {
            assert(ab[i] == a[i] && ab[j] == b[j - a.len()]);
            lemma_pos_le_trans(a[i].range.end, p, b[j - a.len()].range.start);
        }
    }
}

/// The protocol positions of points keep the points' order.
proof fn lemma_point_position_le(a: Point, b: Point)
    requires
        point_fits(a),
        point_fits(b),
        point_le(a, b),
    ensures
        pos_le(point_position(a.row, a.column), point_position(b.row, b.column)),
{
}

/// The protocol range of a node in place is in order.
proof fn lemma_range_in_order(n: SyntaxNode)
    requires
        node_in_place(n),
    ensures
        pos_le(lsp_range(n.range).start, lsp_range(n.range).end),
        within(lsp_range(n.range), lsp_range(n.range)),
{
    lemma_point_position_le(n.range.start_point, n.range.end_point);
}

/// The `i`-th child of a node in place is ordered and lies within the node.
proof fn lemma_child_within(n: SyntaxNode, i: int)
    requires
        tree_ordered(n),
        0 <= i < n.children@.len(),
    ensures
        tree_ordered(n.children@[i]),
        within(lsp_range(n.children@[i].range), lsp_range(n.range)),
{
    let c = n.children@[i];
    lemma_trees_ordered_index(n.children@, i);
    assert(node_in_place(c));
    assert(point_le(n.range.start_point, c.range.start_point));
    lemma_point_position_le(n.range.start_point, c.range.start_point);
    lemma_point_position_le(c.range.end_point, n.range.end_point);
}

/// Children `i` before `j` of a node in place: `i` ends before `j` begins.
proof fn lemma_children_in_order(n: SyntaxNode, i: int, j: int)
    requires
        tree_ordered(n),
        0 <= i < j < n.children@.len(),
    ensures
        pos_le(lsp_range(n.children@[i].range).end, lsp_range(n.children@[j].range).start),
{
    lemma_child_within(n, i);
    lemma_child_within(n, j);
    let cs = n.children@;
    assert(point_le(cs[i].range.end_point, cs[j].range.start_point));
    lemma_point_position_le(cs[i].range.end_point, cs[j].range.start_point);
}

/// The selection of a node's symbol lies within the node.
proof fn lemma_selection_within(n: SyntaxNode, field_id: u16)
    requires
        tree_ordered(n),
    ensures
        within(symbol_selection(n, field_id), lsp_range(n.range)),
{
    lemma_first_in_field_from_bounds(n.children@, field_id, 0);
    match first_in_field_from(n.children@, field_id, 0) {
        Some(i) => {
            lemma_child_within(n, i);
        },
        None => {
            lemma_range_in_order(n);
        },
    }
}

/// A module field's symbol is placed within the field.
proof fn lemma_field_symbol(text: Seq<char>, k: NodeKinds, n: SyntaxNode)
    requires
        tree_ordered(n),
    ensures
        placed(field_symbol(text, k, n)),
        field_symbol(text, k, n).range == lsp_range(n.range),
{
    lemma_range_in_order(n);
    lemma_selection_within(n, k.identifier);
    let s = field_symbol(text, k, n);
    assert(in_sequence(Seq::<SymbolView>::empty(), s.range));
}

/// A single placed symbol within `outer` is all placed there.
proof fn lemma_single(s: SymbolView, outer: Range)
    requires
        placed(s),
        within(s.range, outer),
    ensures
        all_placed(seq![s], outer),
{
    let one = seq![s];
    assert(one.drop_last() =~= Seq::<SymbolView>::empty());
    assert(one.last() == s);
    assert(placed_each(one.drop_last()));
    assert(placed_each(one));
    assert(one[0] == s);
}

/// The symbols of a module field wrapper lie within it.
proof fn lemma_module_field_symbols(text: Seq<char>, k: NodeKinds, n: SyntaxNode)
    requires
        tree_ordered(n),
    ensures
        all_placed(module_field_symbols(text, k, n), lsp_range(n.range)),
{
    lemma_first_named_from_bounds(n.children@, 0);
    if n.kind_id == k.module_field {
        match first_named_from(n.children@, 0) {
            Some(i) => {
                let c = n.children@[i];
                if k.is_symbol_field(c.kind_id) {
                    lemma_child_within(n, i);
                    lemma_field_symbol(text, k, c);
                    lemma_single(field_symbol(text, k, c), lsp_range(n.range));
                }
            },
            None => {},
        }
    }
}

/// The symbols of runs of children: each child's symbols lie within the child, and the
/// children follow one another within `outer`.
proof fn lemma_module_children(text: Seq<char>, k: NodeKinds, n: SyntaxNode, m: int)
    requires
        tree_ordered(n),
        0 <= m <= n.children@.len(),
    ensures
        all_placed(module_children(text, k, n.children@.take(m)), lsp_range(n.range)),
        m > 0 ==> forall|i: int|
            0 <= i < module_children(text, k, n.children@.take(m)).len() ==> pos_le(
                (#[trigger] module_children(text, k, n.children@.take(m))[i]).range.end,
                lsp_range(n.children@[m - 1].range).end,
            ),
    decreases m,
{
    let cs = n.children@.take(m);
    if m > 0 {
        lemma_module_children(text, k, n, m - 1);
        assert(cs.drop_last() =~= n.children@.take(m - 1));
        let a = module_children(text, k, n.children@.take(m - 1));
        let c = n.children@[m - 1];
        let b = module_field_symbols(text, k, c);
        lemma_child_within(n, m - 1);
        lemma_module_field_symbols(text, k, c);
        lemma_in_sequence_widen(b, lsp_range(c.range), lsp_range(n.range));
        let p = lsp_range(c.range).start;
        if m > 1 {
            lemma_children_in_order(n, m - 2, m - 1);
            assert forall|i: int| 0 <= i < a.len() implies pos_le(#[trigger] a[i].range.end, p) by {
                lemma_pos_le_trans(a[i].range.end, lsp_range(n.children@[m - 2].range).end, p);
            }
        }
        assert(module_children(text, k, cs) == a + b);
        lemma_all_placed_concat(a, b, lsp_range(n.range), p);
        lemma_range_in_order(c);
        let ab = a + b;
        assert forall|i: int| 0 <= i < ab.len() implies pos_le(
            (#[trigger] ab[i]).range.end,
            lsp_range(c.range).end,
        ) by {
            if i < a.len() {
                assert(ab[i] == a[i]);
                lemma_pos_le_trans(a[i].range.end, p, lsp_range(c.range).end);
            } else {
                assert(ab[i] == b[i - a.len()]);
            }
        }
    } else {
        assert(cs =~= Seq::<SyntaxNode>::empty());
    }
}

/// A module's symbol is placed within the module.
proof fn lemma_module_symbol(text: Seq<char>, k: NodeKinds, n: SyntaxNode)
    requires
        tree_ordered(n),
    ensures
        placed(module_symbol(text, k, n)),
        module_symbol(text, k, n).range == lsp_range(n.range),
{
    lemma_range_in_order(n);
    lemma_selection_within(n, k.identifier);
    lemma_module_children(text, k, n, n.children@.len() as int);
    assert(n.children@.take(n.children@.len() as int) =~= n.children@);
}

/// The symbols of a node lie within it in document order, each placed.
pub proof fn lemma_node_symbols(text: Seq<char>, k: NodeKinds, n: SyntaxNode)
    requires
        tree_ordered(n),
    ensures
        all_placed(node_symbols(text, k, n), lsp_range(n.range)),
    decreases n, 1int,
{
    lemma_range_in_order(n);
    if n.kind_id == k.parse {
        lemma_top_symbols(text, k, n, n.children@.len() as int);
        assert(n.children@.take(n.children@.len() as int) =~= n.children@);
    } else if n.kind_id == k.command {
        lemma_first_named_from_bounds(n.children@, 0);
        match first_named_from(n.children@, 0) {
            Some(i) => {
                let c = n.children@[i];
                lemma_child_within(n, i);
                assert(decreases_to!(n.children => n.children[i]));
                lemma_node_symbols(text, k, c);
                lemma_in_sequence_widen(node_symbols(text, k, c), lsp_range(c.range), lsp_range(n.range));
            },
            None => {
                assert(in_sequence(Seq::<SymbolView>::empty(), lsp_range(n.range)));
            },
        }
    } else if n.kind_id == k.module {
        lemma_module_symbol(text, k, n);
        lemma_single(module_symbol(text, k, n), lsp_range(n.range));
    } else if n.kind_id == k.module_field {
        lemma_module_field_symbols(text, k, n);
    } else if k.is_symbol_field(n.kind_id) {
        lemma_field_symbol(text, k, n);
        lemma_single(field_symbol(text, k, n), lsp_range(n.range));
    } else {
        assert(in_sequence(Seq::<SymbolView>::empty(), lsp_range(n.range)));
    }
}

/// The symbols of the first `m` children of a root lie within it in document order.
proof fn lemma_top_symbols(text: Seq<char>, k: NodeKinds, n: SyntaxNode, m: int)
    requires
        tree_ordered(n),
        0 <= m <= n.children@.len(),
    ensures
        all_placed(top_symbols(text, k, n.children@.take(m)), lsp_range(n.range)),
        m > 0 ==> forall|i: int|
            0 <= i < top_symbols(text, k, n.children@.take(m)).len() ==> pos_le(
                (#[trigger] top_symbols(text, k, n.children@.take(m))[i]).range.end,
                lsp_range(n.children@[m - 1].range).end,
            ),
    decreases n, 0int, m,
{
    let cs = n.children@.take(m);
    if m > 0 {
        lemma_top_symbols(text, k, n, m - 1);
        assert(cs.drop_last() =~= n.children@.take(m - 1));
        let a = top_symbols(text, k, n.children@.take(m - 1));
        let c = n.children@[m - 1];
        assert(cs.last() == c);
        let b = if c.kind_id == k.top_level || c.kind_id == k.module_field {
            node_symbols(text, k, c)
        } else {
            Seq::empty()
        };
        lemma_child_within(n, m - 1);
        if c.kind_id == k.top_level || c.kind_id == k.module_field {
            assert(decreases_to!(n.children => n.children[m - 1]));
            lemma_node_symbols(text, k, c);
        } else {
            assert(in_sequence(Seq::<SymbolView>::empty(), lsp_range(c.range)));
        }
        lemma_in_sequence_widen(b, lsp_range(c.range), lsp_range(n.range));
        let p = lsp_range(c.range).start;
        if m > 1 {
            lemma_children_in_order(n, m - 2, m - 1);
            assert forall|i: int| 0 <= i < a.len() implies pos_le(#[trigger] a[i].range.end, p) by {
                lemma_pos_le_trans(a[i].range.end, lsp_range(n.children@[m - 2].range).end, p);
            }
        }
        assert(top_symbols(text, k, cs) == a + b);
        lemma_all_placed_concat(a, b, lsp_range(n.range), p);
        lemma_range_in_order(c);
        let ab = a + b;
        assert forall|i: int| 0 <= i < ab.len() implies pos_le(
            (#[trigger] ab[i]).range.end,
            lsp_range(c.range).end,
        ) by {
            if i < a.len() {
                assert(ab[i] == a[i]);
                lemma_pos_le_trans(a[i].range.end, p, lsp_range(c.range).end);
            } else {
                assert(ab[i] == b[i - a.len()]);
            }
        }
    } else {
        assert(cs =~= Seq::<SyntaxNode>::empty());
    }
}

/// Removing the children list of the rightmost innermost symbol keeps symbols placed.
proof fn lemma_mark_symbol(s: SymbolView)
    requires
        placed(s),
    ensures
        placed(mark_symbol(s)),
        mark_symbol(s).range == s.range,
    decreases s, 1int,
{
    match s.children {
        Some(c) => {
            if c.len() > 0 {
                lemma_mark_rightmost(c, s.range);
            }
        },
        None => {},
    }
}

/// Marking the rightmost symbol keeps a placed run placed, with the same ranges.
proof fn lemma_mark_rightmost(ss: Seq<SymbolView>, outer: Range)
    requires
        all_placed(ss, outer),
    ensures
        all_placed(mark_rightmost(ss), outer),
        mark_rightmost(ss).len() == ss.len(),
        forall|i: int| 0 <= i < ss.len() ==> (#[trigger] mark_rightmost(ss)[i]).range == ss[i].range,
    decreases ss, 0int,
{
    if ss.len() > 0 {
        let last = ss.last();
        lemma_placed_each_index(ss, ss.len() - 1);
        lemma_mark_symbol(last);
        let ms = mark_rightmost(ss);
        assert(ms.drop_last() =~= ss.drop_last());
        assert forall|i: int| 0 <= i < ss.len() implies (#[trigger] ms[i]).range == ss[i].range by {
            if i < ss.len() - 1 {
                assert(ms[i] == ss.drop_last()[i]);
            }
        }
    }
}

/// The symbols of a document lie within its root in document order; each symbol's
/// selection lies within its range, and the children of each symbol lie within it in
/// document order: for trees whose nodes are ordered and nested as a parser makes them.
pub proof fn law_document_symbols_placed(text: Seq<char>, k: NodeKinds, root: SyntaxNode)
    requires
        tree_ordered(root),
    ensures
        all_placed(document_symbols(text, k, root), lsp_range(root.range)),
{
    lemma_node_symbols(text, k, root);
    lemma_mark_rightmost(node_symbols(text, k, root), lsp_range(root.range));
}

} // verus!
