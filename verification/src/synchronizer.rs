//! What the server does when a document is opened, changed or closed.

use vstd::prelude::*;

verus! {

/// The services that run on a document's syntax tree.
#[derive(Clone, Copy, Debug, PartialEq, Eq, Structural)]
pub enum Service {
    /// Reports syntax errors.
    Auditor,
    /// Elaborates the tree into symbols.
    Elaborator,
}

/// What happened to a document.
#[derive(Clone, Copy, Debug, PartialEq, Eq, Structural)]
pub enum DocumentEvent {
    Opened,
    Changed,
    Closed,
}

/// A service to run on a document's tree, and the event it handles.
#[derive(Clone, Copy, Debug, PartialEq, Eq, Structural)]
pub struct Task {
    pub service: Service,
    pub event: DocumentEvent,
}

/// The tasks to run, in order, after `event`: the auditor then the elaborator handle it,
/// except after an opening or a change that made no tree, when nothing runs.
pub open spec fn tasks_for(event: DocumentEvent, tree_was_generated: bool) -> Seq<Task> {
    if event != DocumentEvent::Closed && !tree_was_generated {
        Seq::empty()
    } else {
        seq![Task { service: Service::Auditor, event }, Task { service: Service::Elaborator, event }]
    }
}

/// Whatever the event, once a tree was made the auditor and then the elaborator handle
/// it; a closing is handled so whether or not a tree was made; an opening or change that
/// made no tree runs nothing.
pub proof fn law_tasks_after_a_tree(event: DocumentEvent, tree_was_generated: bool)
    ensures
        tree_was_generated || event == DocumentEvent::Closed ==> tasks_for(event, tree_was_generated)
            == seq![Task { service: Service::Auditor, event }, Task { service: Service::Elaborator, event }],
        !tree_was_generated && event != DocumentEvent::Closed ==> tasks_for(event, tree_was_generated).len()
            == 0,
{
}

/// The tasks to run, in order, after `event` on a document, where `tree_was_generated`
/// tells whether parsing the new text made a tree.
pub fn tasks_after(event: DocumentEvent, tree_was_generated: bool) -> (res: Vec<Task>)
    ensures
        res@ == tasks_for(event, tree_was_generated),
        tree_was_generated || event == DocumentEvent::Closed ==> res@ == seq![
            Task { service: Service::Auditor, event },
            Task { service: Service::Elaborator, event },
        ],
        !tree_was_generated && event != DocumentEvent::Closed ==> res@.len() == 0,
{
    let mut tasks: Vec<Task> = Vec::new();
    let closed = match event {
        DocumentEvent::Closed => true,
        _ => false,
    };
    if closed || tree_was_generated {
        tasks.push(Task { service: Service::Auditor, event });
        tasks.push(Task { service: Service::Elaborator, event });
    }
    assert(tasks@ =~= tasks_for(event, tree_was_generated));
    tasks
}

/// The new text of a document from the content changes of a change notification: the
/// server syncs whole documents, so the first change holds all of it.
pub fn change_text(content_changes: &Vec<String>) -> (res: &String)
    requires
        content_changes@.len() > 0,
    ensures
        *res == content_changes@[0],
{
    &content_changes[0]
}

} // verus!
