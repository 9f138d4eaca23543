//! A cursor that walks a syntax tree in document order and records its context.

use crate::language::Language;
use crate::syntax::context::basic;
use crate::syntax::context::trace;
use crate::syntax::context::{with_prefix, Context, LevelView};
use crate::syntax::node::{NodeError, NodeErrorData, SyntaxError, SyntaxNode};
use vstd::prelude::*;

verus! {

/// What one step of a walk yields.
#[derive(Debug)]
pub enum StepValue<'tree> {
    /// The walk is over.
    Done,
    /// The step yielded no node.
    Nothing,
    /// The step yielded a node.
    Node(&'tree SyntaxNode),
}

/// The kinds of the grammars that the walker treats specially.
#[derive(Debug, Clone)]
pub struct GrammarKinds {
    /// The kind of the root node of a `.wast` tree.
    pub wast_root: u16,
    /// The kind of the root node of a `.wat` tree.
    pub wat_root: u16,
    /// The kinds of comment nodes, which the search for errors does not enter.
    pub comments: Vec<u16>,
}

/// A position of a cursor: the nodes from the cursor's base down to its node, and the
/// index of each node below the base among its parent's children.
pub struct Position {
    pub nodes: Seq<SyntaxNode>,
    pub path: Seq<usize>,
}

/// Whether each node of the position is the child of the one before it at the index
/// that the path gives.
pub open spec fn is_chain(p: Position) -> bool {
    &&& p.nodes.len() == p.path.len() + 1
    &&& forall|i: int|
        #![trigger p.path[i]]
        0 <= i < p.path.len() ==> p.path[i] < p.nodes[i].children@.len() && p.nodes[i + 1]
            == p.nodes[i].children@[p.path[i] as int]
}

/// The node at which the position stands.
pub open spec fn current(p: Position) -> SyntaxNode {
    p.nodes.last()
}

/// The position at `node`, with `node` as the base.
pub open spec fn at(node: SyntaxNode) -> Position {
    Position { nodes: seq![node], path: Seq::empty() }
}

/// The position at the base of `p`.
pub open spec fn top(p: Position) -> Position {
    at(p.nodes[0])
}

/// The position one level down, at the first child, if the node has children.
pub open spec fn descend(p: Position) -> Option<Position> {
    let n = current(p);
    if n.children@.len() > 0 {
        Some(Position { nodes: p.nodes.push(n.children@[0]), path: p.path.push(0) })
    } else {
        None
    }
}

/// The position at the first child as the walker takes it: below an error node the
/// child becomes the base of the cursor.
pub open spec fn first_child(p: Position) -> Option<Position> {
    let n = current(p);
    if n.is_error {
        if n.children@.len() > 0 {
            Some(at(n.children@[0]))
        } else {
            None
        }
    } else {
        descend(p)
    }
}

/// The position at the next sibling, if the node is below the base and has one.
pub open spec fn next_sibling(p: Position) -> Option<Position> {
    if p.path.len() == 0 {
        None
    } else {
        let i = p.path.last();
        let parent = p.nodes[p.nodes.len() - 2];
        if i + 1 < parent.children@.len() {
            Some(
                Position {
                    nodes: p.nodes.drop_last().push(parent.children@[i + 1]),
                    path: p.path.drop_last().push((i + 1) as usize),
                },
            )
        } else {
            None
        }
    }
}

/// The position at the parent, if the node is below the base.
pub open spec fn parent(p: Position) -> Option<Position> {
    if p.path.len() == 0 {
        None
    } else {
        Some(Position { nodes: p.nodes.drop_last(), path: p.path.drop_last() })
    }
}

/// The position at the next sibling of the nearest ancestor that has one.
pub open spec fn ancestor_sibling(p: Position) -> Option<Position>
    decreases p.path.len(),
{
    if p.path.len() == 0 {
        None
    } else {
        let up = Position { nodes: p.nodes.drop_last(), path: p.path.drop_last() };
        match next_sibling(up) {
            Some(s) => Some(s),
            None => ancestor_sibling(up),
        }
    }
}

/// The next position of a walk in document order: the first child, else the next
/// sibling, else the next sibling of an ancestor.
pub open spec fn next(p: Position) -> Option<Position> {
    match first_child(p) {
        Some(c) => Some(c),
        None => match next_sibling(p) {
            Some(s) => Some(s),
            None => ancestor_sibling(p),
        },
    }
}

/// Where the walker stands after looking for the next position: there, or at the base
/// when there is none.
pub open spec fn after_next(p: Position) -> Position {
    match next(p) {
        Some(q) => q,
        None => top(p),
    }
}

/// Whether the walk is over after looking for the next position from `p`, when it was
/// `done` before.
pub open spec fn done_after_next(p: Position, done: bool) -> bool {
    if first_child(p) is Some || next_sibling(p) is Some {
        done
    } else {
        ancestor_sibling(p) is None
    }
}

/// The next position of a search for errors: into the node when an error lies below it
/// and it is no comment, else past it.
pub open spec fn next_with_error(p: Position, comments: Seq<u16>) -> Option<Position> {
    let n = current(p);
    if n.has_error && !comments.contains(n.kind_id) {
        next(p)
    } else {
        match next_sibling(p) {
            Some(s) => Some(s),
            None => ancestor_sibling(p),
        }
    }
}

/// Whether the walk is over after the search for errors from `p`.
pub open spec fn done_after_next_with_error(p: Position, comments: Seq<u16>, done: bool) -> bool {
    let n = current(p);
    if n.has_error && !comments.contains(n.kind_id) {
        done_after_next(p, done)
    } else if next_sibling(p) is Some {
        done
    } else {
        ancestor_sibling(p) is None
    }
}

/// Going down to the first child and back up returns to where the walk stood.
pub proof fn law_descend_then_parent(p: Position)
    requires
        is_chain(p),
    ensures
        descend(p) matches Some(q) ==> is_chain(q) && parent(q) == Some(p),
{
    if let Some(q) = descend(p) {
        assert(q.nodes.drop_last() =~= p.nodes);
        assert(q.path.drop_last() =~= p.path);
        assert forall|i: int| 0 <= i < q.path.len() implies q.path[i] < q.nodes[i].children@.len()
            && q.nodes[i + 1] == q.nodes[i].children@[q.path[i] as int] by {
            if i < p.path.len() {
                assert(q.path[i] == p.path[i]);
            }
        }
    }
}

/// Moving to the next sibling keeps the parent.
pub proof fn law_sibling_keeps_parent(p: Position)
    requires
        is_chain(p),
    ensures
        next_sibling(p) matches Some(q) ==> parent(q) == parent(p),
{
    if let Some(q) = next_sibling(p) {
        assert(q.nodes.drop_last() =~= p.nodes.drop_last());
        assert(q.path.drop_last() =~= p.path.drop_last());
    }
}

/// `levels` with `level` recorded, by a context that records levels.
pub open spec fn push_level(records: bool, levels: Seq<LevelView>, level: LevelView) -> Seq<LevelView> {
    if records {
        levels.push(level)
    } else {
        levels
    }
}

/// `levels` without the innermost level, by a context that records levels.
pub open spec fn pop_level(records: bool, levels: Seq<LevelView>) -> Seq<LevelView> {
    if records && levels.len() > 0 {
        levels.drop_last()
    } else {
        levels
    }
}

/// `levels` with `prefix` passed in the innermost level, by a context that records levels.
pub open spec fn prefix_level(records: bool, levels: Seq<LevelView>, prefix: SyntaxNode) -> Seq<LevelView> {
    if records {
        with_prefix(levels, prefix)
    } else {
        levels
    }
}

/// The levels after the move to the first child from `p`: the node is recorded as an
/// ancestor with nothing passed.
pub open spec fn levels_after_first_child(records: bool, p: Position, levels: Seq<LevelView>) -> Seq<LevelView> {
    if first_child(p) is Some {
        push_level(records, levels, LevelView { ancestor: current(p), prefixed: Seq::empty() })
    } else {
        levels
    }
}

/// The levels after the move to the next sibling from `p`: the node is passed.
pub open spec fn levels_after_sibling(records: bool, p: Position, levels: Seq<LevelView>) -> Seq<LevelView> {
    if next_sibling(p) is Some {
        prefix_level(records, levels, current(p))
    } else {
        levels
    }
}

/// The levels after the move to the parent from `p`: the innermost level is dropped.
pub open spec fn levels_after_parent(records: bool, p: Position, levels: Seq<LevelView>) -> Seq<LevelView> {
    if parent(p) is Some {
        pop_level(records, levels)
    } else {
        levels
    }
}

/// The levels after the search for the next sibling of an ancestor from `p`.
pub open spec fn levels_after_ancestor_sibling(records: bool, p: Position, levels: Seq<LevelView>) -> Seq<LevelView>
    decreases p.path.len(),
{
    if p.path.len() == 0 {
        levels
    } else {
        let up = Position { nodes: p.nodes.drop_last(), path: p.path.drop_last() };
        let popped = pop_level(records, levels);
        if next_sibling(up) is Some {
            prefix_level(records, popped, current(up))
        } else {
            levels_after_ancestor_sibling(records, up, popped)
        }
    }
}

/// The levels after the move to the next node in document order from `p`.
pub open spec fn levels_after_next(records: bool, p: Position, levels: Seq<LevelView>) -> Seq<LevelView> {
    if first_child(p) is Some {
        levels_after_first_child(records, p, levels)
    } else if next_sibling(p) is Some {
        levels_after_sibling(records, p, levels)
    } else {
        levels_after_ancestor_sibling(records, p, levels)
    }
}

/// The levels after the move of a search for errors from `p`.
pub open spec fn levels_after_next_with_error(
    records: bool,
    p: Position,
    comments: Seq<u16>,
    levels: Seq<LevelView>,
) -> Seq<LevelView> {
    let n = current(p);
    if n.has_error && !comments.contains(n.kind_id) {
        levels_after_next(records, p, levels)
    } else if next_sibling(p) is Some {
        levels_after_sibling(records, p, levels)
    } else {
        levels_after_ancestor_sibling(records, p, levels)
    }
}

/// Whether `levels` record exactly the ancestors of the position `p` and, within each,
/// the children before the path.
pub open spec fn mirrors(p: Position, levels: Seq<LevelView>) -> bool {
    &&& levels.len() == p.path.len()
    &&& forall|i: int|
        #![trigger levels[i]]
        0 <= i < levels.len() ==> levels[i].ancestor == p.nodes[i] && levels[i].prefixed
            == p.nodes[i].children@.take(p.path[i] as int)
}

/// Whether each node of the position has no more children than a vector can hold.
pub open spec fn children_fit(p: Position) -> bool {
    forall|i: int| 0 <= i < p.nodes.len() ==> #[trigger] p.nodes[i].children@.len() <= usize::MAX
}

proof fn lemma_parent_is_chain(p: Position)
    requires
        is_chain(p),
        p.path.len() > 0,
    ensures
        is_chain(Position { nodes: p.nodes.drop_last(), path: p.path.drop_last() }),
{
    let up = Position { nodes: p.nodes.drop_last(), path: p.path.drop_last() };
    assert forall|i: int| 0 <= i < up.path.len() implies up.path[i] < up.nodes[i].children@.len()
        && up.nodes[i + 1] == up.nodes[i].children@[up.path[i] as int] by {
        assert(up.path[i] == p.path[i]);
    }
}

proof fn lemma_mirror_descend(p: Position, levels: Seq<LevelView>)
    requires
        is_chain(p),
        mirrors(p, levels),
        descend(p) is Some,
    ensures
        mirrors(
            descend(p)->0,
            levels.push(LevelView { ancestor: current(p), prefixed: Seq::empty() }),
        ),
{
    let q = descend(p)->0;
    let ls = levels.push(LevelView { ancestor: current(p), prefixed: Seq::empty() });
    assert forall|i: int| 0 <= i < ls.len() implies ls[i].ancestor == q.nodes[i] && ls[i].prefixed
        == q.nodes[i].children@.take(q.path[i] as int) by {
        if i < levels.len() {
            assert(levels[i].ancestor == p.nodes[i]);
            assert(q.path[i] == p.path[i]);
        } else {
            assert(q.nodes[i].children@.take(0) =~= Seq::<SyntaxNode>::empty());
        }
    }
}

proof fn lemma_mirror_sibling(p: Position, levels: Seq<LevelView>)
    requires
        is_chain(p),
        children_fit(p),
        mirrors(p, levels),
        next_sibling(p) is Some,
    ensures
        mirrors(next_sibling(p)->0, with_prefix(levels, current(p))),
{
    let q = next_sibling(p)->0;
    let ls = with_prefix(levels, current(p));
    let k = p.path.len() - 1;
    assert(p.path[k] == p.path.last());
    assert forall|i: int| 0 <= i < ls.len() implies ls[i].ancestor == q.nodes[i] && ls[i].prefixed
        == q.nodes[i].children@.take(q.path[i] as int) by {
        if i < k {
            assert(levels[i].ancestor == p.nodes[i]);
            assert(q.path[i] == p.path[i]);
        } else {
            assert(levels[k].ancestor == p.nodes[k]);
            assert(p.nodes[k + 1] == p.nodes[k].children@[p.path[k] as int]);
            assert(p.nodes[p.nodes.len() - 2] == p.nodes[k]);
            assert(p.nodes[k].children@.len() <= usize::MAX);
            assert(q.path[k] == p.path[k] + 1);
            assert(p.nodes[k].children@.take(p.path[k] as int).push(p.nodes[k + 1])
                =~= p.nodes[k].children@.take(q.path[k] as int));
        }
    }
}

proof fn lemma_mirror_ancestor_sibling(p: Position, levels: Seq<LevelView>)
    requires
        is_chain(p),
        children_fit(p),
        mirrors(p, levels),
    ensures
        mirrors(
            match ancestor_sibling(p) {
                Some(q) => q,
                None => top(p),
            },
            levels_after_ancestor_sibling(true, p, levels),
        ),
    decreases p.path.len(),
{
    if p.path.len() == 0 {
        assert(top(p).nodes =~= p.nodes);
        assert(top(p).path =~= p.path);
    } else {
        let up = Position { nodes: p.nodes.drop_last(), path: p.path.drop_last() };
        lemma_parent_is_chain(p);
        assert(children_fit(up)) by {
            assert forall|i: int| 0 <= i < up.nodes.len() implies #[trigger] up.nodes[i].children@.len()
                <= usize::MAX by {
                assert(up.nodes[i] == p.nodes[i]);
            }
        }
        let popped = levels.drop_last();
        assert(mirrors(up, popped)) by {
            assert forall|i: int| 0 <= i < popped.len() implies popped[i].ancestor == up.nodes[i]
                && popped[i].prefixed == up.nodes[i].children@.take(up.path[i] as int) by {
                assert(levels[i] == popped[i]);
                assert(up.path[i] == p.path[i]);
            }
        }
        if next_sibling(up) is Some {
            lemma_mirror_sibling(up, popped);
        } else {
            lemma_mirror_ancestor_sibling(up, popped);
            assert(top(up) == top(p));
        }
    }
}

/// A context that records levels and mirrors the walker's position, recording exactly its
/// ancestors and, within each, the children before the path, still mirrors it after a move
/// to the next node in document order, unless the move enters an error node.
pub proof fn law_levels_mirror_walk(p: Position, levels: Seq<LevelView>)
    requires
        is_chain(p),
        children_fit(p),
        mirrors(p, levels),
        !current(p).is_error,
    ensures
        mirrors(after_next(p), levels_after_next(true, p, levels)),
{
    if descend(p) is Some {
        lemma_mirror_descend(p, levels);
    } else if next_sibling(p) is Some {
        lemma_mirror_sibling(p, levels);
    } else {
        lemma_mirror_ancestor_sibling(p, levels);
    }
}

/// Whether a node of kind `kind` is the root of a tree of `language`: the kinds of the
/// roots are those of the text grammars; for other languages every node counts as one.
pub open spec fn is_root(language: Language, kinds: GrammarKinds, kind: u16) -> bool {
    match language {
        Language::Wast => kinds.wast_root == kind,
        Language::Wat => kinds.wat_root == kind,
        _ => true,
    }
}

/// Whether `data` records `node` with no parser state.
pub open spec fn records(data: NodeErrorData, node: SyntaxNode) -> bool {
    &&& data.language() == node.language
    &&& data.kind_id() == node.kind_id
    &&& data.range() == node.range
    &&& data.error_state() == Seq::<u16>::empty()
}

/// What a step that expects a node of kind `that_id` gives from position `p` in a tree of
/// `language`: the position `q` after it and its result `res`.
pub open spec fn step_outcome(
    p: Position,
    that_id: u16,
    language: Language,
    q: Position,
    res: Result<(), SyntaxError>,
) -> bool {
    match next(p) {
        None => q == top(p) && res is Ok,
        Some(n) => {
            let node = current(n);
            if node.kind_id != that_id {
                &&& q == n
                &&& if node.is_error {
                    res is Ok
                } else {
                    &&& res matches Err(SyntaxError::NodeError(e))
                    &&& e.language() == language
                    &&& e.expected_kinds() == seq![that_id]
                    &&& e.found_node() matches Some(d)
                    &&& records(d, node)
                }
            } else if node.is_missing {
                &&& q == at(current(p))
                &&& res matches Err(SyntaxError::MissingNode(d))
                &&& records(d, node)
            } else {
                q == n && res is Ok
            }
        },
    }
}

/// The number of nodes of the tree rooted at `n`.
pub open spec fn size(n: SyntaxNode) -> nat
    decreases n,
{
    1 + sizes(n.children@)
}

/// The number of nodes of the trees rooted at `ns`.
pub open spec fn sizes(ns: Seq<SyntaxNode>) -> nat
    decreases ns,
{
    if ns.len() == 0 {
        0
    } else {
        sizes(ns.drop_last()) + size(ns.last())
    }
}

/// The number of nodes that follow, in document order, the subtrees on the path of `p`
/// within its first `k` levels: the later siblings' trees at each of those levels.
pub open spec fn later(p: Position, k: int) -> nat
    decreases k,
{
    if k <= 0 {
        0
    } else {
        later(p, k - 1) + sizes(p.nodes[k - 1].children@.skip(p.path[k - 1] + 1))
    }
}

/// The number of nodes of the base's tree that a walk in document order from `p` has yet
/// to pass: those below the node and those after it.
pub open spec fn steps_left(p: Position) -> nat {
    (size(current(p)) - 1) as nat + later(p, p.path.len() as int)
}

/// Splitting a sequence of trees splits their node count.
pub proof fn lemma_sizes_split(ns: Seq<SyntaxNode>, k: int)
    requires
        0 <= k <= ns.len(),
    ensures
        sizes(ns) == sizes(ns.take(k)) + sizes(ns.skip(k)),
    decreases ns.len(),
{
    if k == ns.len() {
        assert(ns.take(k) =~= ns);
        assert(ns.skip(k) =~= Seq::<SyntaxNode>::empty());
    } else {
        let d = ns.drop_last();
        lemma_sizes_split(d, k);
        assert(d.take(k) =~= ns.take(k));
        assert(ns.skip(k).drop_last() =~= d.skip(k));
        assert(ns.skip(k).last() == ns.last());
    }
}

/// The trees from index `i` on count the tree at `i` and those after it.
pub proof fn lemma_sizes_from(ns: Seq<SyntaxNode>, i: int)
    requires
        0 <= i < ns.len(),
    ensures
        sizes(ns.skip(i)) == size(ns[i]) + sizes(ns.skip(i + 1)),
{
    let s = ns.skip(i);
    lemma_sizes_split(s, 1);
    assert(s.take(1).drop_last() =~= Seq::<SyntaxNode>::empty());
    assert(s.take(1).last() == ns[i]);
    assert(sizes(s.take(1).drop_last()) == 0);
    assert(sizes(s.take(1)) == size(ns[i]));
    assert(s.skip(1) =~= ns.skip(i + 1));
}

/// Positions that agree on their first `k` levels agree on what follows them there.
pub proof fn lemma_later_agrees(p: Position, q: Position, k: int)
    requires
        0 <= k,
        k <= p.path.len(),
        k <= q.path.len(),
        forall|i: int| 0 <= i < k ==> p.nodes[i] == q.nodes[i] && p.path[i] == q.path[i],
    ensures
        later(p, k) == later(q, k),
    decreases k,
{
    if k > 0 {
        lemma_later_agrees(p, q, k - 1);
    }
}

/// The later siblings' trees within fewer levels are no more.
pub proof fn lemma_later_grows(p: Position, j: int, k: int)
    requires
        0 <= j <= k,
    ensures
        later(p, j) <= later(p, k),
    decreases k,
{
    if j < k {
        lemma_later_grows(p, j, k - 1);
    }
}

/// Moving to the next sibling leaves one node fewer than follow the levels of `p`.
proof fn lemma_sibling_steps(p: Position)
    requires
        is_chain(p),
        next_sibling(p) is Some,
    ensures
        later(p, p.path.len() as int) >= 1,
        steps_left(next_sibling(p)->0) == later(p, p.path.len() as int) - 1,
{
    let q = next_sibling(p)->0;
    let l = p.path.len() as int;
    let i = p.path.last() as int;
    let parent = p.nodes[l - 1];
    assert(p.nodes[l] == parent.children@[i]);
    lemma_sizes_from(parent.children@, i + 1);
    lemma_later_agrees(p, q, l - 1);
    assert(q.nodes[l - 1] == parent);
    assert(parent.children.len() == parent.children@.len());
    assert(q.path[l - 1] == i + 1);
}

/// The next sibling of an ancestor comes before the nodes that follow the levels of `p`.
proof fn lemma_ancestor_sibling_steps(p: Position)
    requires
        is_chain(p),
        ancestor_sibling(p) is Some,
    ensures
        steps_left(ancestor_sibling(p)->0) < later(p, p.path.len() as int),
    decreases p.path.len(),
{
    let up = Position { nodes: p.nodes.drop_last(), path: p.path.drop_last() };
    let l = p.path.len() as int;
    lemma_parent_is_chain(p);
    lemma_later_agrees(p, up, l - 1);
    match next_sibling(up) {
        Some(s) => {
            lemma_sibling_steps(up);
        },
        None => {
            lemma_ancestor_sibling_steps(up);
        },
    }
}

/// Each move of a walk in document order leaves fewer nodes to pass.
pub proof fn lemma_next_steps(p: Position)
    requires
        is_chain(p),
        next(p) is Some,
    ensures
        steps_left(next(p)->0) < steps_left(p),
{
    let n = current(p);
    let l = p.path.len() as int;
    match first_child(p) {
        Some(c) => {
            lemma_sizes_from(n.children@, 0);
            assert(n.children@.skip(0) =~= n.children@);
            if !n.is_error {
                let q = descend(p)->0;
                lemma_later_agrees(p, q, l);
                assert(q.nodes[l] == n);
                assert(q.path[l] == 0);
            }
        },
        None => match next_sibling(p) {
            Some(s) => {
                lemma_sibling_steps(p);
            },
            None => {
                lemma_ancestor_sibling_steps(p);
            },
        },
    }
}

/// A walk put back at its node, as the base, has no more nodes to pass.
pub proof fn lemma_put_back_steps(p: Position)
    ensures
        steps_left(at(current(p))) <= steps_left(p),
{
}

/// A cursor over a tree: the nodes from its base down to its node, and the path of child
/// indices that leads there.
struct Cursor<'tree> {
    nodes: Vec<&'tree SyntaxNode>,
    path: Vec<usize>,
}

impl<'tree> Cursor<'tree> {
    spec fn position(&self) -> Position {
        Position { nodes: self.nodes@.map_values(|r: &'tree SyntaxNode| *r), path: self.path@ }
    }

    spec fn wf(&self) -> bool {
        is_chain(self.position())
    }

    fn new(node: &'tree SyntaxNode) -> (res: Self)
        ensures
            res.wf(),
            res.position() == at(*node),
    {
        let cursor = Cursor { nodes: vec![node], path: Vec::new() };
        assert(cursor.position().nodes =~= seq![*node]);
        assert(cursor.position().path =~= Seq::<usize>::empty());
        cursor
    }

    fn node(&self) -> (res: &'tree SyntaxNode)
        requires
            self.wf(),
        ensures
            *res == current(self.position()),
    {
        let last = self.nodes.len() - 1;
        self.nodes[last]
    }

    fn last_index(&self) -> (res: Option<usize>)
        requires
            self.wf(),
        ensures
            self.path@.len() == 0 ==> res is None,
            self.path@.len() > 0 ==> res == Some(self.path@.last()),
    {
        if self.path.len() == 0 {
            None
        } else {
            let last = self.path.len() - 1;
            Some(self.path[last])
        }
    }

    fn goto_first_child(&mut self) -> (moved: bool)
        requires
            old(self).wf(),
        ensures
            final(self).wf(),
            moved == descend(old(self).position()) is Some,
            final(self).position() == (match descend(old(self).position()) {
                Some(q) => q,
                None => old(self).position(),
            }),
    {
        let node = self.node();
        if node.children.len() > 0 {
            let ghost before = self.position();
            let child = &node.children[0];
            self.nodes.push(child);
            self.path.push(0);
            proof {
                let after = self.position();
                assert(after.nodes =~= before.nodes.push(node.children@[0]));
                assert(after.path =~= before.path.push(0));
                assert forall|i: int| 0 <= i < after.path.len() implies after.path[i]
                    < after.nodes[i].children@.len() && after.nodes[i + 1]
                    == after.nodes[i].children@[after.path[i] as int] by {
                    if i < before.path.len() {
                        assert(before.path[i] == after.path[i]);
                    }
                }
            }
            true
        } else {
            false
        }
    }

    fn goto_next_sibling(&mut self) -> (moved: bool)
        requires
            old(self).wf(),
        ensures
            final(self).wf(),
            moved == next_sibling(old(self).position()) is Some,
            final(self).position() == (match next_sibling(old(self).position()) {
                Some(q) => q,
                None => old(self).position(),
            }),
    {
        if self.path.len() == 0 {
            return false;
        }
        let ghost before = self.position();
        let last = self.path.len() - 1;
        let i = self.path[last];
        let parent = self.nodes[last];
        assert(before.path[last as int] == i);
        assert(before.nodes[last as int] == *parent);
        assert(i < parent.children@.len());
        let count = parent.children.len();
        if i < count - 1 {
            let sibling = &parent.children[i + 1];
            self.nodes.pop();
            self.nodes.push(sibling);
            self.path.pop();
            self.path.push(i + 1);
            proof {
                let after = self.position();
                assert(after.nodes =~= before.nodes.drop_last().push(parent.children@[i + 1]));
                assert(after.path =~= before.path.drop_last().push((i + 1) as usize));
                assert forall|j: int| 0 <= j < after.path.len() implies after.path[j]
                    < after.nodes[j].children@.len() && after.nodes[j + 1]
                    == after.nodes[j].children@[after.path[j] as int] by {
                    if j < last {
                        assert(before.path[j] == after.path[j]);
                    }
                }
            }
            true
        } else {
            false
        }
    }

    fn goto_parent(&mut self) -> (moved: bool)
        requires
            old(self).wf(),
        ensures
            final(self).wf(),
            moved == parent(old(self).position()) is Some,
            final(self).position() == (match parent(old(self).position()) {
                Some(q) => q,
                None => old(self).position(),
            }),
            final(self).position().nodes[0] == old(self).position().nodes[0],
    {
        if self.path.len() == 0 {
            return false;
        }
        let ghost before = self.position();
        self.nodes.pop();
        self.path.pop();
        proof {
            let after = self.position();
            assert(after.nodes =~= before.nodes.drop_last());
            assert(after.path =~= before.path.drop_last());
            assert forall|j: int| 0 <= j < after.path.len() implies after.path[j]
                < after.nodes[j].children@.len() && after.nodes[j + 1]
                == after.nodes[j].children@[after.path[j] as int] by {
                assert(before.path[j] == after.path[j]);
            }
        }
        true
    }

    fn reset(&mut self, node: &'tree SyntaxNode)
        ensures
            final(self).wf(),
            final(self).position() == at(*node),
    {
        *self = Cursor::new(node);
    }
}

/// The children of `node` before the one at `index`.
fn children_before<'tree>(node: &'tree SyntaxNode, index: usize) -> (res: Vec<&'tree SyntaxNode>)
    requires
        index <= node.children@.len(),
    ensures
        res@.len() == index,
        forall|i: int| 0 <= i < index ==> *#[trigger] res@[i] == node.children@[i],
{
    let mut res: Vec<&'tree SyntaxNode> = Vec::new();
    let mut i: usize = 0;
    while i < index
        invariant
            i <= index <= node.children@.len(),
            res@.len() == i,
            forall|j: int| 0 <= j < i ==> *#[trigger] res@[j] == node.children@[j],
        decreases index - i,
    {
        res.push(&node.children[i]);
        i = i + 1;
    }
    res
}

/// A walker over a syntax tree in document order, which records in its context the
/// ancestors of its position.
pub struct NodeWalker<'tree, C> {
    language: Language,
    kinds: GrammarKinds,
    /// What the walker recorded of the ancestors of its position.
    pub context: C,
    cursor: Cursor<'tree>,
    /// Whether the walk is over.
    pub done: bool,
}

impl<'tree, C: Context<'tree>> NodeWalker<'tree, C> {
    /// The position of the walker.
    pub closed spec fn position(&self) -> Position {
        self.cursor.position()
    }

    /// The levels that the walker's context records.
    pub closed spec fn levels(&self) -> Seq<LevelView> {
        self.context.levels()
    }

    /// Whether the walker's kind of context records levels.
    pub open spec fn records(&self) -> bool {
        C::records()
    }

    /// Whether the walk is over.
    pub closed spec fn is_done(&self) -> bool {
        self.done
    }

    /// The language of the tree.
    pub closed spec fn language(&self) -> Language {
        self.language
    }

    /// The kinds of comment nodes the walker was made with.
    pub closed spec fn comments(&self) -> Seq<u16> {
        self.kinds.comments@
    }

    /// Whether the walker's cursor is a chain of nodes and, if its context records levels,
    /// it records at least one level for each node above the cursor's node.
    pub closed spec fn wf(&self) -> bool {
        &&& self.cursor.wf()
        &&& self.records() ==> self.levels().len() >= self.cursor.path@.len()
    }

    /// A well-formed walker stands at a chain of nodes.
    pub proof fn lemma_wf_chain(&self)
        requires
            self.wf(),
        ensures
            is_chain(self.position()),
    {
    }

    /// Whether the walker kept its language, comment kinds and kind of context.
    pub open spec fn keeps(&self, other: &Self) -> bool {
        &&& self.language() == other.language()
        &&& self.comments() == other.comments()
        &&& self.records() == other.records()
    }

    /// A walker at `node`, with an empty context.
    pub fn new(language: Language, kinds: GrammarKinds, node: &'tree SyntaxNode) -> (res: Self)
        ensures
            res.wf(),
            res.position() == at(*node),
            res.language() == language,
            res.comments() == kinds.comments@,
            res.levels() == Seq::<LevelView>::empty(),
            !res.is_done(),
    {
        let context = C::new();
        let cursor = Cursor::new(node);
        let mut walker = NodeWalker { language, kinds, context, cursor, done: false };
        walker.reconstruct_stack();
        proof {
            assert(Seq::<LevelView>::empty().reverse() =~= Seq::<LevelView>::empty());
        }
        walker
    }

    /// Moves to the first child, recording the node as an ancestor. Below an error node
    /// the child becomes the base.
    pub fn goto_first_child(&mut self) -> (moved: bool)
        requires
            old(self).wf(),
        ensures
            final(self).wf(),
            final(self).keeps(old(self)),
            moved == first_child(old(self).position()) is Some,
            final(self).position() == (match first_child(old(self).position()) {
                Some(q) => q,
                None => old(self).position(),
            }),
            final(self).levels() == levels_after_first_child(
                old(self).records(),
                old(self).position(),
                old(self).levels(),
            ),
            final(self).is_done() == old(self).is_done(),
    {
        let ancestor = self.cursor.node();
        if ancestor.is_error {
            if ancestor.children.len() > 0 {
                let child = &ancestor.children[0];
                let prefixed: Vec<&'tree SyntaxNode> = Vec::new();
                assert(crate::syntax::context::node_values(prefixed@) =~= Seq::<SyntaxNode>::empty());
                self.context.push_ancestor(ancestor, prefixed);
                self.cursor.reset(child);
                true
            } else {
                false
            }
        } else {
            let moved = self.cursor.goto_first_child();
            if moved {
                let prefixed: Vec<&'tree SyntaxNode> = Vec::new();
                assert(crate::syntax::context::node_values(prefixed@) =~= Seq::<SyntaxNode>::empty());
                self.context.push_ancestor(ancestor, prefixed);
            }
            moved
        }
    }

    /// Moves to the next sibling, recording the node as passed.
    pub fn goto_next_sibling(&mut self) -> (moved: bool)
        requires
            old(self).wf(),
        ensures
            final(self).wf(),
            final(self).keeps(old(self)),
            moved == next_sibling(old(self).position()) is Some,
            final(self).position() == (match next_sibling(old(self).position()) {
                Some(q) => q,
                None => old(self).position(),
            }),
            final(self).levels() == levels_after_sibling(
                old(self).records(),
                old(self).position(),
                old(self).levels(),
            ),
            final(self).is_done() == old(self).is_done(),
    {
        let prefix = self.cursor.node();
        let moved = self.cursor.goto_next_sibling();
        if moved {
            self.context.push_prefix(prefix);
        }
        moved
    }

    /// Moves to the next node in document order.
    pub fn goto_next(&mut self) -> (moved: bool)
        requires
            old(self).wf(),
        ensures
            final(self).wf(),
            final(self).keeps(old(self)),
            moved == next(old(self).position()) is Some,
            final(self).position() == after_next(old(self).position()),
            final(self).levels() == levels_after_next(
                old(self).records(),
                old(self).position(),
                old(self).levels(),
            ),
            final(self).is_done() == done_after_next(old(self).position(), old(self).is_done()),
    {
        let mut moved;
        moved = self.goto_first_child();
        if !moved {
            moved = self.goto_next_sibling();
            if !moved {
                moved = self.goto_next_ancestor_sibling();
            }
        }
        moved
    }

    /// Moves to the next node in document order below which an error lies, passing over
    /// comments.
    pub fn goto_next_has_error(&mut self) -> (moved: bool)
        requires
            old(self).wf(),
        ensures
            final(self).wf(),
            final(self).keeps(old(self)),
            moved == next_with_error(old(self).position(), old(self).comments()) is Some,
            final(self).position() == (match next_with_error(
                old(self).position(),
                old(self).comments(),
            ) {
                Some(q) => q,
                None => top(old(self).position()),
            }),
            final(self).levels() == levels_after_next_with_error(
                old(self).records(),
                old(self).position(),
                old(self).comments(),
                old(self).levels(),
            ),
            final(self).is_done() == done_after_next_with_error(
                old(self).position(),
                old(self).comments(),
                old(self).is_done(),
            ),
    {
        let node = self.cursor.node();
        let mut moved;
        let comment = crate::syntax::node::contains_u16(self.kinds.comments.as_slice(), node.kind_id);
        if node.has_error && !comment {
            moved = self.goto_next();
        } else {
            moved = self.goto_next_sibling();
            if !moved {
                moved = self.goto_next_ancestor_sibling();
            }
        }
        moved
    }

    /// Moves to the next sibling of the nearest ancestor that has one; when there is none,
    /// the walker ends at its base and the walk is over.
    pub fn goto_next_ancestor_sibling(&mut self) -> (moved: bool)
        requires
            old(self).wf(),
        ensures
            final(self).wf(),
            final(self).keeps(old(self)),
            moved == ancestor_sibling(old(self).position()) is Some,
            final(self).position() == (match ancestor_sibling(old(self).position()) {
                Some(q) => q,
                None => top(old(self).position()),
            }),
            final(self).levels() == levels_after_ancestor_sibling(
                old(self).records(),
                old(self).position(),
                old(self).levels(),
            ),
            final(self).is_done() == ancestor_sibling(old(self).position()) is None,
    {
        let mut moved;
        let mut finished = true;
        let ghost start = self.position();
        let ghost records = self.records();
        let ghost start_levels = self.levels();
        loop
            invariant_except_break
                self.wf(),
                self.keeps(old(self)),
                finished,
                ancestor_sibling(start) == ancestor_sibling(self.position()),
                levels_after_ancestor_sibling(records, start, start_levels)
                    == levels_after_ancestor_sibling(records, self.position(), self.levels()),
                self.position().nodes[0] == start.nodes[0],
                records == self.records(),
            ensures
                self.wf(),
                self.keeps(old(self)),
                moved == ancestor_sibling(start) is Some,
                finished == ancestor_sibling(start) is None,
                self.position() == (match ancestor_sibling(start) {
                    Some(q) => q,
                    None => top(start),
                }),
                self.levels() == levels_after_ancestor_sibling(records, start, start_levels),
            decreases self.position().path.len(),
        {
            moved = self.goto_parent();
            if moved {
                if self.goto_next_sibling() {
                    finished = false;
                    break;
                }
            } else {
                assert(self.position().nodes =~= top(start).nodes);
                assert(self.position().path =~= top(start).path);
                break;
            }
        }
        self.done = finished;
        moved
    }

    /// Moves to the parent, dropping the innermost level.
    pub fn goto_parent(&mut self) -> (moved: bool)
        requires
            old(self).wf(),
        ensures
            final(self).wf(),
            final(self).keeps(old(self)),
            moved == parent(old(self).position()) is Some,
            final(self).position() == (match parent(old(self).position()) {
                Some(q) => q,
                None => old(self).position(),
            }),
            final(self).position().nodes[0] == old(self).position().nodes[0],
            final(self).levels() == levels_after_parent(
                old(self).records(),
                old(self).position(),
                old(self).levels(),
            ),
            final(self).is_done() == old(self).is_done(),
    {
        let moved = self.cursor.goto_parent();
        if moved {
            self.context.pop();
        }
        moved
    }

    /// The kind of the walker's node.
    pub fn kind(&self) -> (res: u16)
        requires
            self.wf(),
        ensures
            res == current(self.position()).kind_id,
    {
        self.cursor.node().kind_id
    }

    /// Whether the walk is over, as the field `done` holds it.
    pub fn done(&self) -> (res: bool)
        ensures
            res == self.is_done(),
    {
        self.done
    }

    /// The walker's node.
    pub fn node(&self) -> (res: &'tree SyntaxNode)
        requires
            self.wf(),
        ensures
            *res == current(self.position()),
    {
        self.cursor.node()
    }

    /// Climbs from the walker's node to the base, recording each ancestor with the
    /// children before the path, then puts the walker back at its node. The cursor of a
    /// walker starts at its node, so a walker made away from a root has no ancestor to
    /// climb to and only the order of its levels is reversed.
    fn reconstruct_stack(&mut self)
        requires
            old(self).wf(),
            old(self).position().path.len() == 0,
        ensures
            final(self).wf(),
            final(self).keeps(old(self)),
            final(self).position() == at(current(old(self).position())),
            final(self).levels() == (if old(self).records() && !is_root(
                old(self).language(),
                old(self).kinds,
                current(old(self).position()).kind_id,
            ) {
                old(self).levels().reverse()
            } else {
                old(self).levels()
            }),
            final(self).is_done() == old(self).is_done(),
    {
        let language = self.language;
        let node = self.node();
        let kind = node.kind_id;
        let at_root = match language {
            Language::Wast => self.kinds.wast_root == kind,
            Language::Wat => self.kinds.wat_root == kind,
            _ => true,
        };
        if !at_root {
            loop
                invariant
                    self.wf(),
                    self.keeps(old(self)),
                    self.is_done() == old(self).is_done(),
                    self.position().path.len() == 0,
                    self.levels() == old(self).levels(),
                decreases self.position().path.len(),
            {
                let index = self.cursor.last_index();
                if self.goto_parent() {
                    let ancestor = self.node();
                    let prefixed = children_before(ancestor, index.unwrap());
                    self.context.push_ancestor(ancestor, prefixed);
                } else {
                    break;
                }
            }
            self.context.reverse();
            self.reset(node);
        } else {
            assert(self.position().nodes =~= at(current(old(self).position())).nodes);
            assert(self.position().path =~= at(current(old(self).position())).path);
        }
    }

    /// Moves to the next node, which should be of kind `that_id`. An error node there is
    /// let pass; a node of another kind is reported, and a missing node is reported with
    /// the walker put back where it stood, as the base.
    pub fn step(&mut self, that_id: u16) -> (res: Result<(), SyntaxError>)
        requires
            old(self).wf(),
        ensures
            final(self).wf(),
            final(self).keeps(old(self)),
            step_outcome(
                old(self).position(),
                that_id,
                old(self).language(),
                final(self).position(),
                res,
            ),
            final(self).levels() == levels_after_next(
                old(self).records(),
                old(self).position(),
                old(self).levels(),
            ),
            final(self).is_done() == done_after_next(old(self).position(), old(self).is_done()),
    {
        let prev = self.node();
        if self.goto_next() {
            let node = self.node();
            if that_id != node.kind_id {
                if node.is_error {
                    return Ok(());
                }
                let found = NodeErrorData::new(node, Vec::new());
                let expected = vec![that_id];
                assert(expected@ =~= seq![that_id]);
                let error = NodeError::new(self.language, expected, Some(found));
                let error = SyntaxError::from(error);
                return Err(error);
            }
            if node.is_missing {
                self.reset(prev);
                let data = NodeErrorData::new(node, Vec::new());
                return Err(SyntaxError::MissingNode(data));
            }
        }
        Ok(())
    }

    /// Puts the walker at `node`, which becomes its base; the context is kept.
    pub fn reset(&mut self, node: &'tree SyntaxNode)
        requires
            old(self).wf(),
        ensures
            final(self).wf(),
            final(self).keeps(old(self)),
            final(self).position() == at(*node),
            final(self).levels() == old(self).levels(),
            final(self).is_done() == old(self).is_done(),
    {
        self.cursor.reset(node);
    }
}

/// A walker that records nothing of its context.
pub type BasicNodeWalker<'tree> = NodeWalker<'tree, basic::Context>;

/// A walker that records every ancestor of its position.
pub type TraceNodeWalker<'tree> = NodeWalker<'tree, trace::Context<'tree>>;

} // verus!
