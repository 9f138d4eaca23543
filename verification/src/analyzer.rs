//! Answers to queries about documents: what hover shows at a position.

use crate::document::Document;
use crate::elaborator::{lemma_nodes_wf_index, lsp_range, node_range, node_text, node_wf, range_text};
use crate::error::{Error, FilesError};
use crate::lsp::{Hover, HoverContents, MarkedString, Position, Range};
use crate::syntax::node::{contains_u16, SyntaxNode};
use crate::text::{chars_of, str_byte_len, string_from_chars, utf16_len, utf8_len};
use crate::util::{column_offset_ok, has_column, line_byte_starts, line_chars};
use vstd::prelude::*;

verus! {

/// Computes queries about documents, against a session of type `S`.
pub struct Analyzer<S> {
    session: S,
}

impl<S> Analyzer<S> {
    /// The analyzer of `session`.
    pub fn new(session: S) -> (res: Result<Self, Error>)
        ensures
            res matches Ok(a) && a.session() == session,
    {
        Ok(Analyzer { session })
    }

    /// The session the analyzer queries.
    pub closed spec fn session(&self) -> S {
        self.session
    }
}

/// The kinds of the nodes that hover describes, from both grammars.
#[derive(Debug, Clone)]
pub struct HoverKinds {
    /// Instructions.
    pub instr: Vec<u16>,
    /// Plain instructions.
    pub instr_plain: Vec<u16>,
    /// Module fields.
    pub module_field: Vec<u16>,
}

impl HoverKinds {
    /// Whether hover describes nodes of kind `kind`.
    pub open spec fn describes(&self, kind: u16) -> bool {
        self.instr_plain@.contains(kind) || self.instr@.contains(kind)
            || self.module_field@.contains(kind)
    }
}

/// Whether a hover computation is over or goes on with the parent.
#[derive(Clone, Copy, Debug, PartialEq, Eq, Structural)]
pub enum HoverComputeStatus {
    Done,
    Next,
}

/// The index of the first child of `cs`, from `i` on, that the search for the smallest
/// node spanning the bytes `lo..hi` enters: children that end before `hi` or at or before
/// `lo` are passed over, and the search stops at a child that begins after `lo`.
pub open spec fn spanning_child_from(cs: Seq<SyntaxNode>, lo: int, hi: int, i: int) -> Option<int>
    decreases cs.len() - i,
{
    if i < 0 || i >= cs.len() {
        None
    } else if (cs[i].range.end_byte as int) < hi || cs[i].range.end_byte as int <= lo {
        spanning_child_from(cs, lo, hi, i + 1)
    } else if lo < cs[i].range.start_byte as int {
        None
    } else {
        Some(i)
    }
}

/// The child that the search enters lies at or after where it started.
pub proof fn lemma_spanning_child_from_bounds(cs: Seq<SyntaxNode>, lo: int, hi: int, i: int)
    ensures
        spanning_child_from(cs, lo, hi, i) matches Some(j) ==> i <= j < cs.len(),
    decreases cs.len() - i,
{
    if 0 <= i < cs.len() && ((cs[i].range.end_byte as int) < hi || cs[i].range.end_byte as int
        <= lo) {
        lemma_spanning_child_from_bounds(cs, lo, hi, i + 1);
    }
}

/// The nodes from `node` down to the smallest node below it that spans the bytes `lo..hi`.
pub open spec fn descent(node: SyntaxNode, lo: int, hi: int) -> Seq<SyntaxNode>
    decreases node,
{
    match spanning_child_from(node.children@, lo, hi, 0) {
        Some(i) => {
            proof {
                lemma_spanning_child_from_bounds(node.children@, lo, hi, 0);
                assert(decreases_to!(node.children => node.children[i]));
            }
            seq![node] + descent(node.children@[i], lo, hi)
        },
        None => seq![node],
    }
}

/// Each node of the descent below its top spans the bytes: it begins at or before `lo`,
/// ends after `lo`, and ends at or after `hi`.
pub proof fn law_descent_spans(node: SyntaxNode, lo: int, hi: int)
    ensures
        descent(node, lo, hi).len() >= 1,
        descent(node, lo, hi)[0] == node,
        forall|i: int|
            1 <= i < descent(node, lo, hi).len() ==> {
                let n = #[trigger] descent(node, lo, hi)[i];
                &&& n.range.start_byte as int <= lo
                &&& lo < n.range.end_byte as int
                &&& hi <= n.range.end_byte as int
            },
    decreases node,
{
    lemma_spanning_child_from_spans(node.children@, lo, hi, 0);
    lemma_spanning_child_from_bounds(node.children@, lo, hi, 0);
    match spanning_child_from(node.children@, lo, hi, 0) {
        Some(j) => {
            let child = node.children@[j];
            assert(decreases_to!(node => node.children));
            assert(decreases_to!(node.children => node.children[j]));
            law_descent_spans(child, lo, hi);
            let d = descent(node, lo, hi);
            assert(d == seq![node] + descent(child, lo, hi));
            assert forall|i: int| 1 <= i < d.len() implies {
                let n = #[trigger] d[i];
                &&& n.range.start_byte as int <= lo
                &&& lo < n.range.end_byte as int
                &&& hi <= n.range.end_byte as int
            } by {
                assert(d[i] == descent(child, lo, hi)[i - 1]);
                if i == 1 {
                    assert(d[1] == child);
                }
            }
        },
        None => {},
    }
}

/// The child that the search enters spans the bytes.
pub proof fn lemma_spanning_child_from_spans(cs: Seq<SyntaxNode>, lo: int, hi: int, i: int)
    ensures
        spanning_child_from(cs, lo, hi, i) matches Some(j) ==> cs[j].range.start_byte as int
            <= lo && lo < cs[j].range.end_byte as int && hi <= cs[j].range.end_byte as int,
    decreases cs.len() - i,
{
    if 0 <= i < cs.len() && ((cs[i].range.end_byte as int) < hi || cs[i].range.end_byte as int
        <= lo) {
        lemma_spanning_child_from_spans(cs, lo, hi, i + 1);
    }
}

/// The deepest node of `chain` that hover describes.
pub open spec fn deepest_described(chain: Seq<SyntaxNode>, k: HoverKinds) -> Option<SyntaxNode>
    decreases chain.len(),
{
    if chain.len() == 0 {
        None
    } else if k.describes(chain.last().kind_id) {
        Some(chain.last())
    } else {
        deepest_described(chain.drop_last(), k)
    }
}

/// Whether `kind` is in any of the three lists of `k`, at any place.
pub open spec fn listed(k: HoverKinds, kind: u16) -> bool {
    (exists|i: int| 0 <= i < k.instr@.len() && k.instr@[i] == kind) || (exists|i: int|
        0 <= i < k.instr_plain@.len() && k.instr_plain@[i] == kind) || (exists|i: int|
        0 <= i < k.module_field@.len() && k.module_field@[i] == kind)
}

/// The deepest listed node of a chain is the one that hover describes.
proof fn lemma_deepest_listed(chain: Seq<SyntaxNode>, k: HoverKinds, j: int)
    requires
        0 <= j < chain.len(),
        listed(k, chain[j].kind_id),
        forall|m: int| j < m < chain.len() ==> !listed(k, #[trigger] chain[m].kind_id),
    ensures
        deepest_described(chain, k) == Some(chain[j]),
    decreases chain.len(),
{
    let last = chain.last();
    if j == chain.len() - 1 {
        assert(k.describes(last.kind_id));
    } else {
        assert(!listed(k, chain[chain.len() - 1].kind_id));
        if k.describes(last.kind_id) {
            if k.instr@.contains(last.kind_id) {
                let i = choose|i: int| 0 <= i < k.instr@.len() && k.instr@[i] == last.kind_id;
            }
            if k.instr_plain@.contains(last.kind_id) {
                let i = choose|i: int| 0 <= i < k.instr_plain@.len() && k.instr_plain@[i] == last.kind_id;
            }
            if k.module_field@.contains(last.kind_id) {
                let i = choose|i: int| 0 <= i < k.module_field@.len() && k.module_field@[i] == last.kind_id;
            }
        }
        let d = chain.drop_last();
        assert forall|m: int| j < m < d.len() implies !listed(k, #[trigger] d[m].kind_id) by {
            assert(d[m] == chain[m]);
        }
        lemma_deepest_listed(d, k, j);
    }
}

/// A chain with no listed node has none that hover describes.
proof fn lemma_none_listed(chain: Seq<SyntaxNode>, k: HoverKinds)
    requires
        forall|m: int| 0 <= m < chain.len() ==> !listed(k, #[trigger] chain[m].kind_id),
    ensures
        deepest_described(chain, k) is None,
    decreases chain.len(),
{
    if chain.len() > 0 {
        let last = chain.last();
        assert(!listed(k, chain[chain.len() - 1].kind_id));
        if k.instr@.contains(last.kind_id) {
            let i = choose|i: int| 0 <= i < k.instr@.len() && k.instr@[i] == last.kind_id;
        }
        if k.instr_plain@.contains(last.kind_id) {
            let i = choose|i: int| 0 <= i < k.instr_plain@.len() && k.instr_plain@[i] == last.kind_id;
        }
        if k.module_field@.contains(last.kind_id) {
            let i = choose|i: int| 0 <= i < k.module_field@.len() && k.module_field@[i] == last.kind_id;
        }
        let d = chain.drop_last();
        assert forall|m: int| 0 <= m < d.len() implies !listed(k, #[trigger] d[m].kind_id) by {
            assert(d[m] == chain[m]);
        }
        lemma_none_listed(d, k);
    }
}

/// Hover shows the deepest node spanning the bytes whose kind stands anywhere in one of
/// the lists of instructions, plain instructions or module fields, with its text and
/// range; when no node spanning the bytes has such a kind, it shows nothing.
pub proof fn law_hover_shows_the_deepest_listed_node(
    text: Seq<char>,
    root: SyntaxNode,
    k: HoverKinds,
    lo: int,
    hi: int,
    j: int,
)
    ensures
        ({
            let d = descent(root, lo, hi);
            0 <= j < d.len() && listed(k, d[j].kind_id) && (forall|m: int|
                j < m < d.len() ==> !listed(k, #[trigger] d[m].kind_id)) ==> hover_for_bytes(text, root, k, lo, hi)
                == Some((range_text(text, d[j].range), lsp_range(d[j].range)))
        }),
        (forall|m: int|
            0 <= m < descent(root, lo, hi).len() ==> !listed(k, #[trigger] descent(root, lo, hi)[m].kind_id))
            ==> hover_for_bytes(text, root, k, lo, hi) is None,
{
    let d = descent(root, lo, hi);
    if 0 <= j < d.len() && listed(k, d[j].kind_id) && (forall|m: int|
        j < m < d.len() ==> !listed(k, #[trigger] d[m].kind_id)) {
        lemma_deepest_listed(d, k, j);
    }
    if forall|m: int| 0 <= m < d.len() ==> !listed(k, #[trigger] d[m].kind_id) {
        lemma_none_listed(d, k);
    }
}

/// What hover shows for the bytes `lo..hi` of the tree `root` over `text`: the text and
/// range of the deepest node it describes among those that span the bytes.
pub open spec fn hover_for_bytes(text: Seq<char>, root: SyntaxNode, k: HoverKinds, lo: int, hi: int) -> Option<(Seq<char>, Range)> {
    match deepest_described(descent(root, lo, hi), k) {
        Some(n) => Some((range_text(text, n.range), lsp_range(n.range))),
        None => None,
    }
}

/// Whether `b` is the byte offset in `text` of the position at line `line` and UTF-16
/// column `character`.
pub open spec fn is_byte_index(text: Seq<char>, line: int, character: int, b: int) -> bool {
    column_offset_ok(line_chars(text, line), character, b - line_byte_starts(text)[line])
}

/// The error for a position whose column falls on no character boundary of its line.
pub open spec fn column_too_large(text: Seq<char>, line: int) -> FilesError {
    let l = line_chars(text, line);
    FilesError::ColumnTooLarge { given: utf16_len(l) as usize, max: utf8_len(l) as usize }
}

/// `codespan_lsp::position_to_byte_index` on a file holding `text`. The source takes the
/// line with its line break and walks its characters counting UTF-16 code units; the
/// result is the line's start plus the bytes before the character at which the count is
/// `character`, or `ColumnTooLarge` with the line's UTF-16 width and byte length when the
/// count never is. A line past the last one makes the source panic; the count is a `u32`,
/// so texts longer than `u32::MAX` bytes are left out.
#[verifier::external_body]
fn position_to_byte_index(text: &str, line: u32, character: u32) -> (res: Result<usize, FilesError>)
    requires
        (line as int) < line_byte_starts(text@).len(),
        utf8_len(text@) <= u32::MAX,
    ensures
        match res {
            Ok(b) => is_byte_index(text@, line as int, character as int, b as int),
            Err(e) => !has_column(line_chars(text@, line as int), character as int) && e
                == column_too_large(text@, line as int),
        },
{
    let file = codespan_reporting::files::SimpleFile::new("", text);
    let position = lsp_types::Position::new(line, character);
    match codespan_lsp::position_to_byte_index(&file, (), &position) {
        Ok(b) => Ok(b),
        Err(codespan_reporting::files::Error::ColumnTooLarge { given, max }) => Err(
            FilesError::ColumnTooLarge { given, max },
        ),
        Err(_) => Err(FilesError::Other),
    }
}

/// The nodes from `node` down to the smallest node below it that spans the bytes `lo..hi`.
fn descendant_chain<'a>(text: Ghost<Seq<char>>, node: &'a SyntaxNode, lo: usize, hi: usize) -> (res: Vec<&'a SyntaxNode>)
    requires
        node_wf(text@, *node),
    ensures
        res@.len() == descent(*node, lo as int, hi as int).len(),
        forall|i: int| 0 <= i < res@.len() ==> *#[trigger] res@[i] == descent(*node, lo as int, hi as int)[i],
        forall|i: int| 0 <= i < res@.len() ==> node_wf(text@, *#[trigger] res@[i]),
    decreases *node,
{
    let mut found: Option<usize> = None;
    let mut i: usize = 0;
    while i < node.children.len()
        invariant_except_break
            found is None,
        invariant
            i <= node.children@.len(),
            spanning_child_from(node.children@, lo as int, hi as int, 0) == spanning_child_from(
                node.children@,
                lo as int,
                hi as int,
                i as int,
            ),
        ensures
            match found {
                Some(j) => spanning_child_from(node.children@, lo as int, hi as int, 0) == Some(
                    j as int,
                ),
                None => spanning_child_from(node.children@, lo as int, hi as int, 0) is None,
            },
        decreases node.children@.len() - i,
    {
        let child = &node.children[i];
        if child.range.end_byte < hi || child.range.end_byte <= lo {
            i = i + 1;
        } else if lo < child.range.start_byte {
            break;
        } else {
            found = Some(i);
            break;
        }
    }
    let mut chain: Vec<&'a SyntaxNode> = Vec::new();
    chain.push(node);
    match found {
        Some(j) => {
            proof {
                lemma_spanning_child_from_bounds(node.children@, lo as int, hi as int, 0);
                lemma_nodes_wf_index(text@, node.children@, j as int);
                assert(decreases_to!(*node => node.children));
                assert(decreases_to!(node.children => node.children[j as int]));
            }
            let child = &node.children[j];
            let mut below = descendant_chain(text, child, lo, hi);
            let ghost tail = below@;
            chain.append(&mut below);
            proof {
                let d = descent(*node, lo as int, hi as int);
                assert(d == seq![*node] + descent(*child, lo as int, hi as int));
                assert forall|k: int| 0 <= k < chain@.len() implies *#[trigger] chain@[k] == d[k]
                    && node_wf(text@, *chain@[k]) by {
                    if k > 0 {
                        assert(chain@[k] == tail[k - 1]);
                    }
                }
            }
        },
        None => {},
    }
    chain
}

/// Whether `node` is of one of `kinds`; if so, its text and range are what hover shows.
fn try_hover_for(
    text: &Vec<char>,
    node: &SyntaxNode,
    kinds: &Vec<u16>,
    contents: &mut Vec<MarkedString>,
    range: &mut Option<Range>,
) -> (res: HoverComputeStatus)
    requires
        node_wf(text@, *node),
        utf8_len(text@) <= usize::MAX,
    ensures
        kinds@.contains(node.kind_id) ==> res == HoverComputeStatus::Done && final(contents)@
            == old(contents)@.push(
            MarkedString::String(final(contents)@.last()->String_0),
        ) && final(contents)@.last()->String_0@ == range_text(text@, node.range) && *final(range)
            == Some(lsp_range(node.range)),
        !kinds@.contains(node.kind_id) ==> res == HoverComputeStatus::Next && final(contents)@
            == old(contents)@ && *final(range) == *old(range),
{
    if contains_u16(kinds.as_slice(), node.kind_id) {
        let chars = node_text(text, &node.range);
        contents.push(MarkedString::String(string_from_chars(&chars)));
        *range = Some(node_range(&node.range));
        HoverComputeStatus::Done
    } else {
        HoverComputeStatus::Next
    }
}

/// Hover for a plain instruction.
fn try_hover_for_instr_plain(
    text: &Vec<char>,
    node: &SyntaxNode,
    k: &HoverKinds,
    contents: &mut Vec<MarkedString>,
    range: &mut Option<Range>,
) -> (res: HoverComputeStatus)
    requires
        node_wf(text@, *node),
        utf8_len(text@) <= usize::MAX,
    ensures
        k.instr_plain@.contains(node.kind_id) ==> res == HoverComputeStatus::Done && final(contents)@.len() == old(contents)@.len() + 1 && final(contents)@.drop_last() == old(contents)@
            && final(contents)@.last()->String_0@ == range_text(text@, node.range) && *final(range)
            == Some(lsp_range(node.range)),
        !k.instr_plain@.contains(node.kind_id) ==> res == HoverComputeStatus::Next && final(contents)@ == old(contents)@ && *final(range) == *old(range),
{
    try_hover_for(text, node, &k.instr_plain, contents, range)
}

/// Hover for an instruction.
fn try_hover_for_instr(
    text: &Vec<char>,
    node: &SyntaxNode,
    k: &HoverKinds,
    contents: &mut Vec<MarkedString>,
    range: &mut Option<Range>,
) -> (res: HoverComputeStatus)
    requires
        node_wf(text@, *node),
        utf8_len(text@) <= usize::MAX,
    ensures
        k.instr@.contains(node.kind_id) ==> res == HoverComputeStatus::Done && final(contents)@.len() == old(contents)@.len() + 1 && final(contents)@.drop_last() == old(contents)@
            && final(contents)@.last()->String_0@ == range_text(text@, node.range) && *final(range)
            == Some(lsp_range(node.range)),
        !k.instr@.contains(node.kind_id) ==> res == HoverComputeStatus::Next && final(contents)@
            == old(contents)@ && *final(range) == *old(range),
{
    try_hover_for(text, node, &k.instr, contents, range)
}

/// Hover for a module field.
fn try_hover_for_module_field(
    text: &Vec<char>,
    node: &SyntaxNode,
    k: &HoverKinds,
    contents: &mut Vec<MarkedString>,
    range: &mut Option<Range>,
) -> (res: HoverComputeStatus)
    requires
        node_wf(text@, *node),
        utf8_len(text@) <= usize::MAX,
    ensures
        k.module_field@.contains(node.kind_id) ==> res == HoverComputeStatus::Done && final(contents)@.len() == old(contents)@.len() + 1 && final(contents)@.drop_last() == old(contents)@
            && final(contents)@.last()->String_0@ == range_text(text@, node.range) && *final(range)
            == Some(lsp_range(node.range)),
        !k.module_field@.contains(node.kind_id) ==> res == HoverComputeStatus::Next && final(contents)@ == old(contents)@ && *final(range) == *old(range),
{
    try_hover_for(text, node, &k.module_field, contents, range)
}

/// Whether `hover` shows `shown`: its text and range.
pub open spec fn shows(hover: Option<Hover>, shown: Option<(Seq<char>, Range)>) -> bool {
    match shown {
        None => hover is None,
        Some((t, r)) => {
            &&& hover matches Some(h)
            &&& h.range == Some(r)
            &&& h.contents matches HoverContents::Array(cs)
            &&& cs@.len() == 1
            &&& cs@[0]->String_0@ == t
        },
    }
}

/// What hover shows for the bytes `start..end` of the tree `root` over `text`.
pub fn hover_for_byte_range(
    text: &Vec<char>,
    root: &SyntaxNode,
    k: &HoverKinds,
    start: usize,
    end: usize,
) -> (res: Option<Hover>)
    requires
        node_wf(text@, *root),
        utf8_len(text@) <= usize::MAX,
    ensures
        shows(res, hover_for_bytes(text@, *root, *k, start as int, end as int)),
{
    let chain = descendant_chain(Ghost(text@), root, start, end);
    let ghost d = descent(*root, start as int, end as int);
    let mut contents: Vec<MarkedString> = Vec::new();
    let mut range: Option<Range> = None;
    let mut i = chain.len();
    assert(d.take(i as int) =~= d);
    while i > 0
        invariant_except_break
            contents@.len() == 0,
            range is None,
        invariant
            i <= chain@.len(),
            chain@.len() == d.len(),
            forall|j: int| 0 <= j < chain@.len() ==> *#[trigger] chain@[j] == d[j],
            forall|j: int| 0 <= j < chain@.len() ==> node_wf(text@, *#[trigger] chain@[j]),
            utf8_len(text@) <= usize::MAX,
            deepest_described(d, *k) == deepest_described(d.take(i as int), *k),
        ensures
            contents@.len() == 0 ==> range is None && deepest_described(d, *k) is None,
            contents@.len() > 0 ==> contents@.len() == 1,
            contents@.len() > 0 ==> (deepest_described(d, *k) matches Some(n)
                && contents@[0]->String_0@ == range_text(text@, n.range) && range == Some(
                lsp_range(n.range),
            )),
        decreases i,
    {
        let node = chain[i - 1];
        proof {
            assert(d.take(i as int).drop_last() =~= d.take(i - 1));
            assert(d.take(i as int).last() == *node);
        }
        if let HoverComputeStatus::Done = try_hover_for_instr_plain(text, node, k, &mut contents, &mut range) {
            break;
        }
        if let HoverComputeStatus::Done = try_hover_for_instr(text, node, k, &mut contents, &mut range) {
            break;
        }
        if let HoverComputeStatus::Done = try_hover_for_module_field(text, node, k, &mut contents, &mut range) {
            break;
        }
        i = i - 1;
    }
    proof {
        if i == 0 {
            assert(d.take(0).len() == 0);
        }
    }
    if contents.len() == 0 {
        None
    } else {
        Some(Hover { contents: HoverContents::Array(contents), range })
    }
}

/// What hover shows for `range` of `document`, whose tree is `root`: the positions are
/// turned into byte offsets, and the deepest node spanning them that is a plain
/// instruction, an instruction or a module field is shown with its text and range.
pub fn hover_for_token_range(document: &Document, root: &SyntaxNode, k: &HoverKinds, range: Range) -> (res: Result<Option<Hover>, Error>)
    requires
        node_wf(document.text(), *root),
        utf8_len(document.text()) <= u32::MAX,
        (range.start.line as int) < line_byte_starts(document.text()).len(),
        (range.end.line as int) < line_byte_starts(document.text()).len(),
    ensures
        ({
            let t = document.text();
            let (sl, sc) = (range.start.line as int, range.start.character as int);
            let (el, ec) = (range.end.line as int, range.end.character as int);
            &&& res is Ok <==> has_column(line_chars(t, sl), sc) && has_column(line_chars(t, el), ec)
            &&& !has_column(line_chars(t, sl), sc) ==> res == Err::<Option<Hover>, Error>(Error::Files(column_too_large(t, sl)))
            &&& has_column(line_chars(t, sl), sc) && !has_column(line_chars(t, el), ec) ==> res == Err::<Option<Hover>, Error>(Error::Files(column_too_large(t, el)))
            &&& res matches Ok(h) ==> exists|lo: int, hi: int| is_byte_index(t, sl, sc, lo) && is_byte_index(t, el, ec, hi) && shows(h, hover_for_bytes(t, *root, *k, lo, hi))
        }),
{
    let _ = document.len_bytes();
    let source = document.to_text();
    let _ = str_byte_len(source.as_str());
    let start = match position_to_byte_index(source.as_str(), range.start.line, range.start.character) {
        Ok(b) => b,
        Err(e) => return Err(Error::Files(e)),
    };
    let end = match position_to_byte_index(source.as_str(), range.end.line, range.end.character) {
        Ok(b) => b,
        Err(e) => return Err(Error::Files(e)),
    };
    let text = chars_of(source.as_str());
    let hover = hover_for_byte_range(&text, root, k, start, end);
    Ok(hover)
}

/// What hover shows at `position` of `document`, whose tree is `root`.
pub fn hover_with_document(document: &Document, root: &SyntaxNode, k: &HoverKinds, position: Position) -> (res: Result<Option<Hover>, Error>)
    requires
        node_wf(document.text(), *root),
        utf8_len(document.text()) <= u32::MAX,
        (position.line as int) < line_byte_starts(document.text()).len(),
    ensures
        ({
            let t = document.text();
            let (l, c) = (position.line as int, position.character as int);
            &&& res is Ok <==> has_column(line_chars(t, l), c)
            &&& !has_column(line_chars(t, l), c) ==> res == Err::<Option<Hover>, Error>(Error::Files(column_too_large(t, l)))
            &&& res matches Ok(h) ==> exists|b: int| is_byte_index(t, l, c, b) && shows(h, hover_for_bytes(t, *root, *k, b, b))
        }),
{
    let range = Range::new(position, position);
    let res = hover_for_token_range(document, root, k, range);
    proof {
        if res is Ok {
            let t = document.text();
            let (l, c) = (position.line as int, position.character as int);
            let (lo, hi) = choose|lo: int, hi: int| is_byte_index(t, l, c, lo) && is_byte_index(t, l, c, hi) && shows(res->Ok_0, hover_for_bytes(t, *root, *k, lo, hi));
            lemma_byte_index_unique(t, l, c, lo, hi);
        }
    }
    res
}

/// A position has at most one byte offset.
pub proof fn lemma_byte_index_unique(text: Seq<char>, line: int, character: int, a: int, b: int)
    requires
        is_byte_index(text, line, character, a),
        is_byte_index(text, line, character, b),
    ensures
        a == b,
{
    let l = line_chars(text, line);
    let i = choose|i: int| #[trigger] crate::util::is_column_index(l, character, i) && a - line_byte_starts(text)[line] == utf8_len(l.take(i));
    let j = choose|j: int| #[trigger] crate::util::is_column_index(l, character, j) && b - line_byte_starts(text)[line] == utf8_len(l.take(j));
    crate::util::lemma_column_index_unique(l, character, i, j);
}

} // verus!
