use wasm_lsp_server::language::Language;
use wasm_lsp_server::syntax::context::basic;
use wasm_lsp_server::syntax::context::trace;
use wasm_lsp_server::syntax::context::Context;
use wasm_lsp_server::syntax::node::{
    NodeError, NodeErrorData, NodeExt, SyntaxError, SyntaxErrors, SyntaxNode,
};
use wasm_lsp_server::syntax::range::{Point, RangeExt, SyntaxRange};
use wasm_lsp_server::rules::{done, Choice, End, Optional, Repeat, Restore, Rule, Sequence, Token};
use wasm_lsp_server::syntax::walker::{BasicNodeWalker, GrammarKinds, StepValue, TraceNodeWalker};

fn range(start: usize, end: usize) -> SyntaxRange {
    SyntaxRange {
        start_byte: start,
        end_byte: end,
        start_point: Point { row: 0, column: start },
        end_point: Point { row: 0, column: end },
    }
}

fn node(kind_id: u16, start: usize, end: usize, children: Vec<SyntaxNode>) -> SyntaxNode {
    let has_error = children.iter().any(|c| c.has_error);
    SyntaxNode {
        language: Language::Wat,
        kind_id,
        field_id: None,
        is_named: true,
        is_error: false,
        is_missing: false,
        has_error,
        range: range(start, end),
        children,
    }
}

fn kinds() -> GrammarKinds {
    GrammarKinds { wast_root: 100, wat_root: 1, comments: vec![50] }
}

// root(1) [ a(2), b(3) [ c(4), d(5) ], e(6) ]
fn tree() -> SyntaxNode {
    node(
        1,
        0,
        10,
        vec![
            node(2, 0, 1, vec![]),
            node(3, 2, 6, vec![node(4, 2, 3, vec![]), node(5, 4, 6, vec![])]),
            node(6, 7, 10, vec![]),
        ],
    )
}

#[test]
fn walk_visits_nodes_in_document_order() {
    let root = tree();
    let mut walker = BasicNodeWalker::new(Language::Wat, kinds(), &root);
    assert_eq!(walker.kind(), 1);
    let mut seen = vec![];
    while walker.goto_next() {
        seen.push(walker.kind());
    }
    assert_eq!(seen, vec![2, 3, 4, 5, 6]);
    assert!(walker.done);
    assert_eq!(walker.kind(), 1);
}

#[test]
fn sibling_and_parent_moves() {
    let root = tree();
    let mut walker = BasicNodeWalker::new(Language::Wat, kinds(), &root);
    assert!(!walker.goto_next_sibling());
    assert!(!walker.goto_parent());
    assert!(walker.goto_first_child());
    assert_eq!(walker.kind(), 2);
    assert!(!walker.goto_first_child());
    assert!(walker.goto_next_sibling());
    assert_eq!(walker.kind(), 3);
    assert!(walker.goto_first_child());
    assert!(walker.goto_next_sibling());
    assert_eq!(walker.kind(), 5);
    assert!(!walker.goto_next_sibling());
    assert!(walker.goto_next_ancestor_sibling());
    assert_eq!(walker.kind(), 6);
    assert!(!walker.done);
    assert!(walker.goto_parent());
    assert_eq!(walker.kind(), 1);
    assert!(walker.goto_first_child());
    assert!(walker.goto_next_sibling());
    assert_eq!(walker.kind(), 3);
    assert!(!walker.goto_next_ancestor_sibling());
    assert!(walker.done);
    assert_eq!(walker.kind(), 1);
}

#[test]
fn trace_context_records_ancestors_and_passed_siblings() {
    let root = tree();
    let mut walker = TraceNodeWalker::new(Language::Wat, kinds(), &root);
    assert!(walker.goto_first_child());
    assert!(walker.goto_next_sibling());
    assert!(walker.goto_first_child());
    assert_eq!(walker.kind(), 4);
    let inner = walker.context.pop().unwrap();
    assert_eq!(inner.ancestor.kind_id, 3);
    assert!(inner.prefixed.is_empty());
    let outer = walker.context.pop().unwrap();
    assert_eq!(outer.ancestor.kind_id, 1);
    let passed: Vec<u16> = outer.prefixed.iter().map(|n| n.kind_id).collect();
    assert_eq!(passed, vec![2]);
    assert!(walker.context.pop().is_none());
}

#[test]
fn trace_context_follows_a_walk_in_document_order() {
    let root = tree();
    let mut walker = TraceNodeWalker::new(Language::Wat, kinds(), &root);
    let mut seen = vec![];
    while walker.goto_next() {
        seen.push(walker.kind());
        if walker.kind() == 6 {
            break;
        }
    }
    assert_eq!(seen, vec![2, 3, 4, 5, 6]);
    let level = walker.context.pop().unwrap();
    assert_eq!(level.ancestor.kind_id, 1);
    let passed: Vec<u16> = level.prefixed.iter().map(|n| n.kind_id).collect();
    assert_eq!(passed, vec![2, 3]);
    assert!(walker.context.pop().is_none());
}

#[test]
fn trace_context_push_pop_and_reverse() {
    let root = tree();
    let mut context = <trace::Context as Context>::new();
    context.push_ancestor(&root, vec![]);
    context.push_ancestor(&root.children[1], vec![&root.children[0]]);
    context.push_prefix(&root.children[1].children[0]);
    context.reverse();
    let first = context.pop().unwrap();
    assert_eq!(first.ancestor.kind_id, 1);
    let second = context.pop().unwrap();
    assert_eq!(second.ancestor.kind_id, 3);
    let passed: Vec<u16> = second.prefixed.iter().map(|n| n.kind_id).collect();
    assert_eq!(passed, vec![2, 4]);
    assert!(context.pop().is_none());
    context.push(second);
    assert_eq!(context.pop().unwrap().ancestor.kind_id, 3);
}

#[test]
fn basic_context_records_nothing() {
    let root = tree();
    let mut context = <basic::Context as Context>::new();
    context.push_ancestor(&root, vec![]);
    context.push(basic::Level {});
    assert!(context.pop().is_none());
}

#[test]
fn walker_below_an_error_node_takes_its_child_as_base() {
    let mut error = node(7, 0, 4, vec![node(8, 0, 2, vec![]), node(9, 2, 4, vec![])]);
    error.is_error = true;
    error.has_error = true;
    let root = node(1, 0, 4, vec![error]);
    let mut walker = BasicNodeWalker::new(Language::Wat, kinds(), &root);
    assert!(walker.goto_first_child());
    assert_eq!(walker.kind(), 7);
    assert!(walker.goto_first_child());
    assert_eq!(walker.kind(), 8);
    assert!(!walker.goto_next_sibling());
    assert!(!walker.goto_parent());
}

#[test]
fn step_accepts_the_expected_kind() {
    let root = tree();
    let mut walker = BasicNodeWalker::new(Language::Wat, kinds(), &root);
    assert_eq!(walker.step(2), Ok(()));
    assert_eq!(walker.kind(), 2);
    assert_eq!(walker.step(3), Ok(()));
    assert_eq!(walker.kind(), 3);
}

#[test]
fn step_reports_a_node_of_another_kind() {
    let root = tree();
    let mut walker = BasicNodeWalker::new(Language::Wat, kinds(), &root);
    let found = NodeErrorData::new(&root.children[0], vec![]);
    let expected = SyntaxError::NodeError(NodeError::new(Language::Wat, vec![9], Some(found)));
    assert_eq!(walker.step(9), Err(expected));
    assert_eq!(walker.kind(), 2);
}

#[test]
fn step_lets_an_error_node_pass() {
    let mut error = node(7, 0, 1, vec![]);
    error.is_error = true;
    error.has_error = true;
    let root = node(1, 0, 1, vec![error]);
    let mut walker = BasicNodeWalker::new(Language::Wat, kinds(), &root);
    assert_eq!(walker.step(2), Ok(()));
    assert_eq!(walker.kind(), 7);
}

#[test]
fn step_reports_a_missing_node_and_stays() {
    let mut missing = node(2, 0, 0, vec![]);
    missing.is_missing = true;
    let root = node(1, 0, 1, vec![missing]);
    let mut walker = BasicNodeWalker::new(Language::Wat, kinds(), &root);
    let data = NodeErrorData::new(&root.children[0], vec![]);
    assert_eq!(walker.step(2), Err(SyntaxError::MissingNode(data)));
    assert_eq!(walker.kind(), 1);
}

#[test]
fn step_at_the_end_of_the_walk_is_done() {
    let root = node(1, 0, 1, vec![]);
    let mut walker = BasicNodeWalker::new(Language::Wat, kinds(), &root);
    assert_eq!(walker.step(2), Ok(()));
    assert!(walker.done);
}

#[test]
fn search_for_errors_skips_clean_nodes_and_comments() {
    let mut bad = node(4, 3, 4, vec![]);
    bad.is_error = true;
    bad.has_error = true;
    let mut comment = node(50, 0, 2, vec![node(51, 0, 1, vec![])]);
    comment.has_error = true;
    let clean = node(3, 2, 3, vec![node(52, 2, 3, vec![])]);
    let holder = node(5, 3, 4, vec![bad]);
    let root = node(1, 0, 4, vec![comment, clean, holder]);
    let mut walker = BasicNodeWalker::new(Language::Wat, kinds(), &root);
    let mut seen = vec![];
    while walker.goto_next_has_error() {
        seen.push(walker.kind());
    }
    assert_eq!(seen, vec![50, 3, 5, 4]);
    assert!(walker.done);
}

#[test]
fn walker_made_below_the_root_starts_there() {
    let root = tree();
    let mut walker = TraceNodeWalker::new(Language::Wat, kinds(), &root.children[1]);
    assert_eq!(walker.kind(), 3);
    assert!(walker.context.pop().is_none());
    walker.reset(&root);
    assert_eq!(walker.node().kind_id, 1);
}

#[test]
fn step_values_carry_nodes() {
    let root = tree();
    let value = StepValue::Node(&root);
    assert!(matches!(value, StepValue::Node(n) if n.kind_id == 1));
    assert!(matches!(StepValue::Done, StepValue::Done));
    assert!(matches!(StepValue::Nothing, StepValue::Nothing));
}

#[test]
fn node_errors_keep_expected_kinds_and_found_node() {
    let root = tree();
    let data = NodeErrorData::new(&root, vec![1, 2]);
    let error = NodeError::new(Language::Wast, vec![3, 4], Some(data.clone()));
    assert_eq!(error.expected(), &[3, 4]);
    assert_eq!(error.found(), &Some(data));
    let syntax_error: SyntaxError = error.clone().into();
    assert_eq!(syntax_error, SyntaxError::NodeError(error));
}

#[test]
fn syntax_errors_push_and_append_in_order() {
    let mut errors = SyntaxErrors::new();
    assert!(errors.errors().is_empty());
    errors.push(SyntaxError::DoneEarly);
    let mut other = SyntaxErrors::from_error(SyntaxError::MoreNodes);
    other.push(SyntaxError::DoneEarly);
    errors.append(&mut other);
    assert_eq!(
        errors.errors(),
        &[SyntaxError::DoneEarly, SyntaxError::MoreNodes, SyntaxError::DoneEarly]
    );
    assert!(other.errors().is_empty());
    assert!(SyntaxErrors::default().errors().is_empty());
    assert_eq!(SyntaxErrors::default(), SyntaxErrors::new());
}

#[test]
fn matches_subtypes_looks_at_the_first_named_child() {
    let mut anonymous = node(9, 0, 1, vec![]);
    anonymous.is_named = false;
    let parent = node(1, 0, 3, vec![anonymous, node(4, 1, 2, vec![]), node(5, 2, 3, vec![])]);
    assert!(parent.matches_subtypes(1, &[4, 6]));
    assert!(!parent.matches_subtypes(1, &[5, 9]));
    assert!(!parent.matches_subtypes(2, &[4]));
    assert!(!node(1, 0, 0, vec![]).matches_subtypes(1, &[4]));
}

#[test]
fn range_containment() {
    let outer = range(0, 10);
    let inner = range(2, 5);
    assert!(outer.contains(&inner));
    assert!(outer.contains(&outer));
    assert!(!inner.contains(&outer));
    assert!(range(3, 11).contains(&range(4, 11)));
    assert!(!range(3, 11).contains(&range(4, 12)));
    assert!(!range(3, 11).contains(&range(2, 4)));
}

#[test]
fn children_by_field_and_first_named() {
    let mut named = node(4, 1, 2, vec![]);
    named.field_id = Some(7);
    let mut anonymous = node(9, 0, 1, vec![]);
    anonymous.is_named = false;
    let parent = node(1, 0, 2, vec![anonymous, named]);
    assert_eq!(parent.first_named_child().map(|n| n.kind_id), Some(4));
    assert_eq!(parent.child_by_field_id(7).map(|n| n.kind_id), Some(4));
    assert!(parent.child_by_field_id(8).is_none());
    assert_eq!(parent.range().end_byte(), 2);
}

#[test]
fn trace_context_gives_back_what_was_pushed() {
    let a = node(7, 0, 3, vec![]);
    let b = node(8, 4, 6, vec![]);
    let mut c: trace::Context = Context::new();
    assert!(c.pop().is_none());
    c.push_ancestor(&a, vec![&b]);
    let level = c.pop().unwrap();
    assert_eq!(level.ancestor.kind_id, 7);
    let passed: Vec<u16> = level.prefixed.iter().map(|n| n.kind_id).collect();
    assert_eq!(passed, vec![8]);
    assert!(c.pop().is_none());
    c.push(trace::Level { ancestor: &b, prefixed: vec![] });
    let level = c.pop().unwrap();
    assert_eq!(level.ancestor.kind_id, 8);
    assert!(level.prefixed.is_empty());
    assert!(c.pop().is_none());
}

#[test]
fn done_rule_succeeds_only_after_the_last_node() {
    let root = tree();
    let mut walker = BasicNodeWalker::new(Language::Wat, kinds(), &root);
    let errors = done(&walker).unwrap_err();
    assert_eq!(errors.errors(), &[SyntaxError::MoreNodes][..]);
    while walker.goto_next() {}
    assert!(walker.done());
    assert!(done(&walker).is_ok());
}

#[test]
fn token_and_sequence_rules_step_through_the_walk() {
    let root = tree();
    let mut walker = BasicNodeWalker::new(Language::Wat, kinds(), &root);
    let rule = Sequence { first: Token { kind: 2 }, second: Token { kind: 3 } };
    assert!(rule.apply(&mut walker).is_ok());
    assert_eq!(walker.kind(), 3);
    let errors = Token { kind: 9 }.apply(&mut walker).unwrap_err();
    assert_eq!(errors.errors().len(), 1);
    assert_eq!(walker.kind(), 4);
}

#[test]
fn optional_and_restore_put_the_walker_back_on_failure() {
    let root = tree();
    let mut walker = BasicNodeWalker::new(Language::Wat, kinds(), &root);
    assert!(Optional { rule: Token { kind: 9 } }.apply(&mut walker).is_ok());
    assert_eq!(walker.kind(), 1);
    let errors = Restore { rule: Token { kind: 9 } }.apply(&mut walker).unwrap_err();
    assert_eq!(errors.errors().len(), 1);
    assert_eq!(walker.kind(), 1);
    assert!(Optional { rule: Token { kind: 2 } }.apply(&mut walker).is_ok());
    assert_eq!(walker.kind(), 2);
}

#[test]
fn choice_tries_the_second_rule_from_the_same_node() {
    let root = tree();
    let mut walker = BasicNodeWalker::new(Language::Wat, kinds(), &root);
    assert!(Choice { first: Token { kind: 9 }, second: Token { kind: 2 } }.apply(&mut walker).is_ok());
    assert_eq!(walker.kind(), 2);
    let mut walker = BasicNodeWalker::new(Language::Wat, kinds(), &root);
    let errors = Choice { first: Token { kind: 8 }, second: Token { kind: 9 } }.apply(&mut walker).unwrap_err();
    assert_eq!(errors.errors().len(), 2);
    assert_eq!(walker.kind(), 1);
}

#[test]
fn repeat_matches_until_a_match_fails_or_the_walk_ends() {
    let root = tree();
    let mut walker = BasicNodeWalker::new(Language::Wat, kinds(), &root);
    assert!(Repeat::new(Token { kind: 2 }).apply(&mut walker).is_ok());
    assert_eq!(walker.kind(), 2);
    assert!(!walker.done());
    let errors = End.apply(&mut walker).unwrap_err();
    assert_eq!(errors.errors(), &[SyntaxError::MoreNodes][..]);
    assert!(Repeat::new(Token { kind: 5 }).apply(&mut walker).is_ok());
    assert!(walker.done());
    assert_eq!(walker.kind(), 2);
    assert!(End.apply(&mut walker).is_ok());
}
