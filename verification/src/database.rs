//! The status of documents, as the document database records it.

use vstd::prelude::*;

verus! {

/// The kinds of document status.
#[derive(Clone, Copy, Debug, PartialEq, Eq, Structural)]
pub enum DocumentStatusKind {
    Closed,
    Opened,
}

impl DocumentStatusKind {
    /// The byte that encodes the kind.
    pub fn code(self) -> (res: u8)
        ensures
            res == (match self {
                DocumentStatusKind::Closed => 0u8,
                DocumentStatusKind::Opened => 1u8,
            }),
    {
        match self {
            DocumentStatusKind::Closed => 0,
            DocumentStatusKind::Opened => 1,
        }
    }
}

/// The status of a document: the code of its kind.
#[derive(Clone, Copy, Debug, PartialEq, Eq, Structural)]
pub struct DocumentStatus(pub u8);

impl DocumentStatus {
    /// The status of a closed document.
    pub fn closed() -> (res: DocumentStatus)
        ensures
            res.0 == 0,
    {
        DocumentStatus(DocumentStatusKind::Closed.code())
    }

    /// The status of an opened document.
    pub fn opened() -> (res: DocumentStatus)
        ensures
            res.0 == 1,
    {
        DocumentStatus(DocumentStatusKind::Opened.code())
    }

    /// The bytes under which the status is stored.
    pub fn as_bytes(&self) -> (res: Vec<u8>)
        ensures
            res@ == status_bytes(*self),
    {
        let mut bytes: Vec<u8> = Vec::new();
        bytes.push(self.0);
        bytes
    }
}

/// The bytes under which `status` is stored: its code.
pub open spec fn status_bytes(status: DocumentStatus) -> Seq<u8> {
    seq![status.0]
}

/// Whether the database entry `key`, `value` records that the document `uri` was opened.
pub open spec fn opens(uri: Seq<u8>, key: Seq<u8>, value: Seq<u8>) -> bool {
    key == uri && value == seq![1u8]
}

/// Whether the database entry `key`, `value` records that the document `uri` was opened.
pub fn announces_open(uri: &[u8], key: &[u8], value: &[u8]) -> (res: bool)
    ensures
        res == opens(uri@, key@, value@),
{
    let opened = DocumentStatus::opened().as_bytes();
    bytes_eq(key, uri) && bytes_eq(value, opened.as_slice())
}

/// The entry that opening a document writes is the one that a reader waiting for the
/// document recognizes, and the entry that closing it writes is not.
pub proof fn law_recorded_open_is_announced(uri: Seq<u8>, opened: DocumentStatus, closed: DocumentStatus)
    requires
        opened.0 == 1,
        closed.0 == 0,
    ensures
        opens(uri, uri, status_bytes(opened)),
        !opens(uri, uri, status_bytes(closed)),
{
    assert(status_bytes(opened) =~= seq![1u8]);
    assert(status_bytes(closed)[0] != seq![1u8][0]);
}

/// Whether two byte strings are equal.
fn bytes_eq(a: &[u8], b: &[u8]) -> (res: bool)
    ensures
        res == (a@ == b@),
{
    if a.len() != b.len() {
        return false;
    }
    let mut i: usize = 0;
    while i < a.len()
        invariant
            a@.len() == b@.len(),
            i <= a@.len(),
            forall|j: int| 0 <= j < i ==> a@[j] == b@[j],
        decreases a@.len() - i,
    {
        if a[i] != b[i] {
            return false;
        }
        i = i + 1;
    }
    assert(a@ =~= b@);
    true
}

} // verus!
