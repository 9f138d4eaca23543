//! Syntax nodes and the syntax errors reported against them.

use crate::language::Language;
use crate::syntax::range::SyntaxRange;
use vstd::prelude::*;

verus! {

/// A node of a concrete syntax tree, with its children in document order.
#[derive(Debug)]
pub struct SyntaxNode {
    /// The language of the grammar that produced the node.
    pub language: Language,
    /// The grammar's id for the kind of the node.
    pub kind_id: u16,
    /// The grammar's id of the field under which the node is a child of its parent.
    pub field_id: Option<u16>,
    /// Whether the node is named in the grammar (not an anonymous token).
    pub is_named: bool,
    /// Whether the node stands for text the parser could not make sense of.
    pub is_error: bool,
    /// Whether the node was inserted by the parser to recover from an error.
    pub is_missing: bool,
    /// Whether the node or any node below it is an error or missing.
    pub has_error: bool,
    /// The extent of the node in the document.
    pub range: SyntaxRange,
    /// The children of the node, in document order.
    pub children: Vec<SyntaxNode>,
}

/// Index of the first named node of `cs` at or after `i`.
pub open spec fn first_named_from(cs: Seq<SyntaxNode>, i: int) -> Option<int>
    decreases cs.len() - i,
{
    if i < 0 || i >= cs.len() {
        None
    } else if cs[i].is_named {
        Some(i)
    } else {
        first_named_from(cs, i + 1)
    }
}

/// Index of the first node of `cs` at or after `i` that sits under field `field_id`.
pub open spec fn first_in_field_from(cs: Seq<SyntaxNode>, field_id: u16, i: int) -> Option<int>
    decreases cs.len() - i,
{
    if i < 0 || i >= cs.len() {
        None
    } else if cs[i].field_id == Some(field_id) {
        Some(i)
    } else {
        first_in_field_from(cs, field_id, i + 1)
    }
}

/// The first named child of `node`, if any.
pub open spec fn first_named_child(node: SyntaxNode) -> Option<SyntaxNode> {
    match first_named_from(node.children@, 0) {
        Some(i) => Some(node.children@[i]),
        None => None,
    }
}

/// The first child of `node` under field `field_id`, if any.
pub open spec fn field_child(node: SyntaxNode, field_id: u16) -> Option<SyntaxNode> {
    match first_in_field_from(node.children@, field_id, 0) {
        Some(i) => Some(node.children@[i]),
        None => None,
    }
}

pub proof fn lemma_first_named_from_bounds(cs: Seq<SyntaxNode>, i: int)
    ensures
        first_named_from(cs, i) matches Some(j) ==> i <= j < cs.len() && cs[j].is_named,
    decreases cs.len() - i,
{
    if 0 <= i < cs.len() && !cs[i].is_named {
        lemma_first_named_from_bounds(cs, i + 1);
    }
}

pub proof fn lemma_first_in_field_from_bounds(cs: Seq<SyntaxNode>, field_id: u16, i: int)
    ensures
        first_in_field_from(cs, field_id, i) matches Some(j) ==> i <= j < cs.len(),
    decreases cs.len() - i,
{
    if 0 <= i < cs.len() && cs[i].field_id != Some(field_id) {
        lemma_first_in_field_from_bounds(cs, field_id, i + 1);
    }
}

impl SyntaxNode {
    /// The grammar's id for the kind of the node.
    pub fn kind_id(&self) -> (res: u16)
        ensures
            res == self.kind_id,
    {
        self.kind_id
    }

    /// The extent of the node.
    pub fn range(&self) -> (res: SyntaxRange)
        ensures
            res == self.range,
    {
        self.range
    }

    /// The first named child of the node, if any.
    pub fn first_named_child(&self) -> (res: Option<&SyntaxNode>)
        ensures
            match res {
                Some(c) => first_named_child(*self) == Some(*c),
                None => first_named_child(*self) is None,
            },
    {
        let mut i: usize = 0;
        while i < self.children.len()
            invariant
                i <= self.children@.len(),
                first_named_from(self.children@, 0) == first_named_from(self.children@, i as int),
            decreases self.children@.len() - i,
        {
            if self.children[i].is_named {
                return Some(&self.children[i]);
            }
            i = i + 1;
        }
        None
    }

    /// The first child of the node under field `field_id`, if any.
    pub fn child_by_field_id(&self, field_id: u16) -> (res: Option<&SyntaxNode>)
        ensures
            match res {
                Some(c) => field_child(*self, field_id) == Some(*c),
                None => field_child(*self, field_id) is None,
            },
    {
        let mut i: usize = 0;
        while i < self.children.len()
            invariant
                i <= self.children@.len(),
                first_in_field_from(self.children@, field_id, 0) == first_in_field_from(
                    self.children@,
                    field_id,
                    i as int,
                ),
            decreases self.children@.len() - i,
        {
            if self.children[i].field_id == Some(field_id) {
                return Some(&self.children[i]);
            }
            i = i + 1;
        }
        None
    }
}

/// Whether the kind of `node` is `supertype_id` and its first named child has one of
/// the kinds `subtype_ids`.
pub open spec fn matches_subtypes(node: SyntaxNode, supertype_id: u16, subtype_ids: Seq<u16>) -> bool {
    match first_named_child(node) {
        Some(child) => supertype_id == node.kind_id && subtype_ids.contains(child.kind_id),
        None => false,
    }
}

/// Whether `x` occurs in `xs`.
pub fn contains_u16(xs: &[u16], x: u16) -> (res: bool)
    ensures
        res == xs@.contains(x),
{
    let mut i: usize = 0;
    while i < xs.len()
        invariant
            i <= xs@.len(),
            forall|j: int| 0 <= j < i ==> xs@[j] != x,
        decreases xs@.len() - i,
    {
        if xs[i] == x {
            assert(xs@[i as int] == x);
            return true;
        }
        i = i + 1;
    }
    false
}

/// Utility trait for working with syntax nodes.
pub trait NodeExt {
    /// Predicate to determine if a supertype node matches a given subtype node kind.
    fn matches_subtypes(&self, supertype_id: u16, subtype_ids: &[u16]) -> bool;
}

impl NodeExt for SyntaxNode {
    fn matches_subtypes(&self, supertype_id: u16, subtype_ids: &[u16]) -> (res: bool)
        ensures
            res == matches_subtypes(*self, supertype_id, subtype_ids@),
    {
        if let Some(child) = self.first_named_child() {
            supertype_id == self.kind_id() && contains_u16(subtype_ids, child.kind_id())
        } else {
            false
        }
    }
}

/// What is recorded of a node at which a syntax error was found.
#[derive(Clone, Debug, PartialEq)]
pub struct NodeErrorData {
    language: Language,
    kind_id: u16,
    range: SyntaxRange,
    error_state: Vec<u16>,
}

impl NodeErrorData {
    /// The record of `node` with the given parser error state.
    pub fn new(node: &SyntaxNode, error_state: Vec<u16>) -> (res: Self)
        ensures
            res.language() == node.language,
            res.kind_id() == node.kind_id,
            res.range() == node.range,
            res.error_state() == error_state@,
    {
        let language = node.language;
        let kind_id = node.kind_id();
        let range = node.range();
        NodeErrorData { language, kind_id, range, error_state }
    }

    /// The language of the node.
    pub closed spec fn language(&self) -> Language {
        self.language
    }

    /// The kind id of the node.
    pub closed spec fn kind_id(&self) -> u16 {
        self.kind_id
    }

    /// The extent of the node.
    pub closed spec fn range(&self) -> SyntaxRange {
        self.range
    }

    /// The parser state at the error.
    pub closed spec fn error_state(&self) -> Seq<u16> {
        self.error_state@
    }
}

/// A node found where nodes of other kinds were expected.
#[derive(Clone, Debug, PartialEq)]
pub struct NodeError {
    language: Language,
    expected: Vec<u16>,
    found: Option<NodeErrorData>,
}

impl NodeError {
    /// The error that one of `expected` was due in `language` but `found` stood there.
    pub fn new(language: Language, expected: Vec<u16>, found: Option<NodeErrorData>) -> (res: Self)
        ensures
            res.language() == language,
            res.expected_kinds() == expected@,
            res.found_node() == found,
    {
        Self { language, expected, found }
    }

    /// The language of the grammar.
    pub closed spec fn language(&self) -> Language {
        self.language
    }

    /// The kinds that were expected.
    pub closed spec fn expected_kinds(&self) -> Seq<u16> {
        self.expected@
    }

    /// The node that was found, if any.
    pub closed spec fn found_node(&self) -> Option<NodeErrorData> {
        self.found
    }

    /// The kinds that were expected.
    pub fn expected(&self) -> (res: &[u16])
        ensures
            res@ == self.expected_kinds(),
    {
        self.expected.as_slice()
    }

    /// The node that was found, if any.
    pub fn found(&self) -> (res: &Option<NodeErrorData>)
        ensures
            *res == self.found_node(),
    {
        &self.found
    }
}

/// A syntax error found while walking a tree.
#[derive(Clone, Debug, PartialEq)]
pub enum SyntaxError {
    /// The walk ended before a required node.
    DoneEarly,
    /// A node that the parser inserted to recover.
    MissingNode(NodeErrorData),
    /// Nodes left over after the walk.
    MoreNodes,
    /// A node of an unexpected kind.
    NodeError(NodeError),
}

impl From<NodeError> for SyntaxError {
    fn from(value: NodeError) -> (res: Self) {
        SyntaxError::NodeError(value)
    }
}

impl vstd::std_specs::convert::FromSpecImpl<NodeError> for SyntaxError {
    open spec fn obeys_from_spec() -> bool {
        true
    }

    open spec fn from_spec(value: NodeError) -> Self {
        SyntaxError::NodeError(value)
    }
}

/// A collection of syntax errors, in the order they were found.
#[derive(Clone, Debug, PartialEq)]
pub struct SyntaxErrors {
    errors: Vec<SyntaxError>,
}

impl View for SyntaxErrors {
    type V = Seq<SyntaxError>;

    closed spec fn view(&self) -> Seq<SyntaxError> {
        self.errors@
    }
}

impl SyntaxErrors {
    /// An empty collection.
    pub fn new() -> (res: Self)
        ensures
            res@ == Seq::<SyntaxError>::empty(),
    {
        SyntaxErrors { errors: Vec::new() }
    }

    /// Moves all errors of `other` to the end of `self`, leaving `other` empty.
    pub fn append(&mut self, other: &mut SyntaxErrors)
        ensures
            final(self)@ == old(self)@ + old(other)@,
            final(other)@ == Seq::<SyntaxError>::empty(),
    {
        self.errors.append(&mut other.errors);
    }

    /// The errors, in order.
    pub fn errors(&self) -> (res: &[SyntaxError])
        ensures
            res@ == self@,
    {
        self.errors.as_slice()
    }

    /// Adds `error` at the end.
    pub fn push(&mut self, error: SyntaxError)
        ensures
            final(self)@ == old(self)@.push(error),
    {
        self.errors.push(error);
    }
}

impl Default for SyntaxErrors {
    /// An empty collection.
    fn default() -> (res: Self)
        ensures
            res@ == Seq::<SyntaxError>::empty(),
    {
        SyntaxErrors::new()
    }
}

impl SyntaxErrors {
    /// The collection holding just `error`.
    pub fn from_error(error: SyntaxError) -> (res: Self)
        ensures
            res@ == seq![error],
    {
        let mut errors = SyntaxErrors::new();
        errors.push(error);
        errors
    }
}

} // verus!
