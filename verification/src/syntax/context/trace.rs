//! A context that records every ancestor and the siblings passed within it.

use crate::syntax::context::{node_values, with_prefix, LevelView};
use crate::syntax::node::SyntaxNode;
use vstd::prelude::*;

verus! {

/// An ancestor of the walker's position and the siblings passed within it.
#[derive(Debug)]
pub struct Level<'tree> {
    pub ancestor: &'tree SyntaxNode,
    pub prefixed: Vec<&'tree SyntaxNode>,
}

/// What `level` records.
pub open spec fn view_of<'tree>(level: Level<'tree>) -> LevelView {
    LevelView { ancestor: *level.ancestor, prefixed: node_values(level.prefixed@) }
}

/// The recorded levels, outermost first.
#[derive(Debug)]
pub struct Context<'tree> {
    stack: Vec<Level<'tree>>,
}

impl<'tree> View for Context<'tree> {
    type V = Seq<Level<'tree>>;

    closed spec fn view(&self) -> Seq<Level<'tree>> {
        self.stack@
    }
}

impl<'tree> super::Context<'tree> for Context<'tree> {
    type Level = Level<'tree>;

    open spec fn records() -> bool {
        true
    }

    open spec fn levels(&self) -> Seq<LevelView> {
        self@.map_values(|l: Level<'tree>| view_of(l))
    }

    open spec fn level_view(&self, level: Level<'tree>) -> LevelView {
        view_of(level)
    }

    fn new() -> (res: Self)
        ensures
            res@ == Seq::<Level<'tree>>::empty(),
    {
        let res = Context { stack: Vec::new() };
        assert(res.levels() =~= Seq::<LevelView>::empty());
        res
    }

    fn pop(&mut self) -> (res: Option<Level<'tree>>)
        ensures
            old(self)@.len() == 0 ==> res is None && final(self)@ == old(self)@,
            old(self)@.len() > 0 ==> res == Some(old(self)@.last()) && final(self)@ == old(
                self,
            )@.drop_last(),
    {
        let res = self.stack.pop();
        proof {
            if old(self)@.len() > 0 {
                assert(self.levels() =~= old(self).levels().drop_last());
            }
        }
        res
    }

    fn push(&mut self, level: Level<'tree>)
        ensures
            final(self)@ == old(self)@.push(level),
    {
        let ghost v = view_of(level);
        self.stack.push(level);
        assert(self.levels() =~= old(self).levels().push(v));
    }

    fn push_ancestor(&mut self, ancestor: &'tree SyntaxNode, prefixed: Vec<&'tree SyntaxNode>)
        ensures
            final(self)@ == old(self)@.push(Level { ancestor, prefixed }),
    {
        let level = Level { ancestor, prefixed };
        let ghost v = view_of(level);
        self.stack.push(level);
        assert(self.levels() =~= old(self).levels().push(v));
    }

    fn push_prefix(&mut self, prefix: &'tree SyntaxNode)
        ensures
            final(self)@.len() == old(self)@.len(),
            final(self)@.drop_last() == old(self)@.drop_last(),
            final(self)@.last().ancestor == old(self)@.last().ancestor,
            final(self)@.last().prefixed@ == old(self)@.last().prefixed@.push(prefix),
    {
        let mut level = self.stack.pop().unwrap();
        let ghost before = view_of(level);
        level.prefixed.push(prefix);
        assert(node_values(level.prefixed@) =~= before.prefixed.push(*prefix));
        self.stack.push(level);
        assert(self@.drop_last() =~= old(self)@.drop_last());
        assert(self.levels() =~= with_prefix(old(self).levels(), *prefix));
    }

    fn reverse(&mut self)
        ensures
            final(self)@ == old(self)@.reverse(),
    {
        let mut reversed: Vec<Level<'tree>> = Vec::new();
        let ghost initial = self.stack@;
        while self.stack.len() > 0
            invariant
                reversed@ + self.stack@.reverse() == initial.reverse(),
            decreases self.stack@.len(),
        {
            let ghost before = self.stack@;
            let level = self.stack.pop().unwrap();
            proof {
                assert(before.reverse() =~= seq![level] + before.drop_last().reverse());
            }
            reversed.push(level);
            proof {
                assert(reversed@ + self.stack@.reverse() =~= initial.reverse());
            }
        }
        proof {
            assert(self.stack@.reverse() =~= Seq::<Level<'tree>>::empty());
            assert(reversed@ =~= initial.reverse());
        }
        self.stack = reversed;
        assert(self.levels() =~= old(self).levels().reverse());
    }
}

/// Recording a level and removing the innermost level gives back that level and
/// leaves the context as it was.
pub proof fn lemma_push_pop<'tree>(before: Seq<Level<'tree>>, level: Level<'tree>)
    ensures
        before.push(level).len() > 0,
        before.push(level).last() == level,
        before.push(level).drop_last() == before,
{
    assert(before.push(level).drop_last() =~= before);
}

/// Reversing the levels twice restores them.
pub proof fn lemma_reverse_reverse<'tree>(levels: Seq<Level<'tree>>)
    ensures
        levels.reverse().reverse() == levels,
{
    assert(levels.reverse().reverse() =~= levels);
}

} // verus!
