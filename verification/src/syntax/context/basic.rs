//! A context that records nothing.

use crate::syntax::context::LevelView;
use crate::syntax::node::SyntaxNode;
use vstd::prelude::*;

verus! {

/// A level of the basic context, which holds nothing.
#[derive(Debug, Clone, Copy, PartialEq, Eq)]
pub struct Level {}

/// The basic context, which records nothing.
#[derive(Debug, Clone, Copy, PartialEq, Eq)]
pub struct Context {}

impl<'tree> super::Context<'tree> for Context {
    type Level = Level;

    open spec fn records() -> bool {
        false
    }

    open spec fn levels(&self) -> Seq<LevelView> {
        Seq::empty()
    }

    open spec fn level_view(&self, level: Level) -> LevelView {
        LevelView { ancestor: vstd::pervasive::arbitrary(), prefixed: Seq::empty() }
    }

    fn new() -> (res: Self) {
        Context {}
    }

    fn pop(&mut self) -> (res: Option<Level>) {
        None
    }

    fn push(&mut self, level: Level) {
    }

    fn push_ancestor(&mut self, ancestor: &'tree SyntaxNode, prefixed: Vec<&'tree SyntaxNode>) {
    }

    fn push_prefix(&mut self, prefix: &'tree SyntaxNode) {
    }

    fn reverse(&mut self) {
    }
}

} // verus!
