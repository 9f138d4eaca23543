//! The context that a node walker keeps of the nodes above its position.

pub mod basic;
pub mod trace;

use crate::syntax::node::SyntaxNode;
use vstd::prelude::*;

verus! {

/// What a level of a context records, as values: an ancestor of the walker's position and
/// the siblings passed within it, before the path down to the position.
pub struct LevelView {
    pub ancestor: SyntaxNode,
    pub prefixed: Seq<SyntaxNode>,
}

/// The nodes that `refs` refer to.
pub open spec fn node_values<'tree>(refs: Seq<&'tree SyntaxNode>) -> Seq<SyntaxNode> {
    refs.map_values(|r: &'tree SyntaxNode| *r)
}

/// `levels` with `prefix` added to the siblings passed within the innermost level.
pub open spec fn with_prefix(levels: Seq<LevelView>, prefix: SyntaxNode) -> Seq<LevelView> {
    levels.drop_last().push(
        LevelView { ancestor: levels.last().ancestor, prefixed: levels.last().prefixed.push(prefix) },
    )
}

/// Recording a level and then removing the innermost one gives that level back and leaves
/// a recording context's levels as they were: the `push` and `pop` contracts compose so.
pub proof fn law_push_then_pop(levels: Seq<LevelView>, level: LevelView)
    ensures
        levels.push(level).len() > 0,
        levels.push(level).last() == level,
        levels.push(level).drop_last() == levels,
{
    assert(levels.push(level).drop_last() =~= levels);
}

/// What a walker records as it moves through a tree: for each ancestor of its position,
/// the ancestor and the siblings that precede the path below it. A context either records
/// levels or records none.
pub trait Context<'tree>: Sized {
    /// What is recorded of one ancestor.
    type Level;

    /// Whether contexts of this kind record levels.
    spec fn records() -> bool;

    /// The levels recorded, outermost first; none for a context that does not record.
    spec fn levels(&self) -> Seq<LevelView>;

    /// What `level` records.
    spec fn level_view(&self, level: Self::Level) -> LevelView;

    /// An empty context.
    fn new() -> (res: Self)
        ensures
            res.levels() == Seq::<LevelView>::empty(),
    ;

    /// Removes and returns the innermost level, if the context records levels and has one.
    fn pop(&mut self) -> (res: Option<Self::Level>)
        ensures
            Self::records() && old(self).levels().len() > 0 ==> (res matches Some(l)
                && old(self).level_view(l) == old(self).levels().last() && final(self).levels()
                == old(self).levels().drop_last()),
            !(Self::records() && old(self).levels().len() > 0) ==> res is None && final(self).levels() == old(self).levels(),
    ;

    /// Records `level` as the innermost level.
    fn push(&mut self, level: Self::Level)
        ensures
            final(self).levels() == if Self::records() {
                old(self).levels().push(old(self).level_view(level))
            } else {
                old(self).levels()
            },
    ;

    /// Records `ancestor`, preceded within it by `prefixed`, as the innermost level.
    fn push_ancestor(&mut self, ancestor: &'tree SyntaxNode, prefixed: Vec<&'tree SyntaxNode>)
        ensures
            final(self).levels() == if Self::records() {
                old(self).levels().push(
                    LevelView { ancestor: *ancestor, prefixed: node_values(prefixed@) },
                )
            } else {
                old(self).levels()
            },
    ;

    /// Records `prefix` as one more sibling passed within the innermost level, which a
    /// recording context must have.
    fn push_prefix(&mut self, prefix: &'tree SyntaxNode)
        requires
            Self::records() ==> old(self).levels().len() > 0,
        ensures
            final(self).levels() == if Self::records() {
                with_prefix(old(self).levels(), *prefix)
            } else {
                old(self).levels()
            },
    ;

    /// Reverses the order of the levels.
    fn reverse(&mut self)
        ensures
            final(self).levels() == if Self::records() {
                old(self).levels().reverse()
            } else {
                old(self).levels()
            },
    ;
}

} // verus!
