//! Undo and redo for the editor.
//!
//! Each action that changes the document is a command with `apply` and
//! `revert`. A bounded history of commands caps memory. Commands touch the
//! cursor layer, the annotation list and the document effects only; the base
//! image never changes.
use vstd::prelude::*;
use crate::editor::document::{
    find_position, AnnotationNode, Border, CursorView, Document, DocumentView, EdgeEffect, NodeId,
    NodeView, SerializedCursor,
};

verus! {

/// Maximum undo history length.
pub const HISTORY_LIMIT: usize = 200;

// ---------------------------------------------------------------------------
// Model
// ---------------------------------------------------------------------------

/// Position and size of the cursor layer: x, y, width, height.
pub type Placement = (i32, i32, u32, u32);

/// A command with the state it carries between `apply` and `revert`.
#[allow(inconsistent_fields)]
pub enum CommandView {
    Add { node: Option<NodeView>, inserted_id: Option<NodeId> },
    Remove { target_id: NodeId, removed: Option<(usize, NodeView)> },
    Update { target_id: NodeId, before: Option<NodeView>, after: Option<NodeView> },
    RemoveCursor { saved: Option<CursorView> },
    UpdateCursor { before: Option<Placement>, after: Option<Placement> },
    SetEdgeEffect { before: Option<EdgeEffect>, after: Option<EdgeEffect> },
    SetBorder { before: Option<Border>, after: Option<Border> },
}

/// A document with another annotation list.
pub open spec fn with_annotations(d: DocumentView, s: Seq<NodeView>) -> DocumentView {
    DocumentView { annotations: s, ..d }
}

/// A cursor layer moved and resized.
pub open spec fn placed(c: CursorView, p: Placement) -> CursorView {
    CursorView { x: p.0, y: p.1, width: p.2, height: p.3, ..c }
}

/// The document, and the command's own state, after `apply`.
pub open spec fn applied(c: CommandView, d: DocumentView) -> (CommandView, DocumentView) {
    match c {
        CommandView::Add { node, .. } => match node {
            Some(n) => (
                CommandView::Add { node: None, inserted_id: Some(n.id()) },
                with_annotations(d, d.annotations.push(n)),
            ),
            None => (c, d),
        },
        CommandView::Remove { target_id, .. } => {
            let p = crate::editor::document::position_of(d.annotations, target_id);
            if p < d.annotations.len() {
                (
                    CommandView::Remove {
                        target_id,
                        removed: Some((p as usize, d.annotations[p])),
                    },
                    with_annotations(d, d.annotations.remove(p)),
                )
            } else {
                (c, d)
            }
        },
        CommandView::Update { target_id, before, after } => match after {
            Some(n) => {
                let p = crate::editor::document::position_of(d.annotations, target_id);
                if p < d.annotations.len() {
                    (
                        CommandView::Update {
                            target_id,
                            before: Some(d.annotations[p]),
                            after: None,
                        },
                        with_annotations(d, d.annotations.update(p, n)),
                    )
                } else {
                    (CommandView::Update { target_id, before, after: None }, d)
                }
            },
            None => (c, d),
        },
        CommandView::RemoveCursor { .. } => match d.cursor {
            Some(cur) => (
                CommandView::RemoveCursor { saved: Some(cur) },
                DocumentView { cursor: None, ..d },
            ),
            None => (c, d),
        },
        CommandView::UpdateCursor { after, .. } => match (d.cursor, after) {
            (Some(cur), Some(p)) => (c, DocumentView { cursor: Some(placed(cur, p)), ..d }),
            _ => (c, d),
        },
        CommandView::SetEdgeEffect { after, .. } => (c, DocumentView { edge_effect: after, ..d }),
        CommandView::SetBorder { after, .. } => (c, DocumentView { border: after, ..d }),
    }
}

/// The document, and the command's own state, after `revert`.
pub open spec fn reverted(c: CommandView, d: DocumentView) -> (CommandView, DocumentView) {
    match c {
        CommandView::Add { node, inserted_id } => match inserted_id {
            Some(id) => {
                let p = crate::editor::document::position_of(d.annotations, id);
                if p < d.annotations.len() {
                    (
                        CommandView::Add { node: Some(d.annotations[p]), inserted_id: None },
                        with_annotations(d, d.annotations.remove(p)),
                    )
                } else {
                    (CommandView::Add { node, inserted_id: None }, d)
                }
            },
            None => (c, d),
        },
        CommandView::Remove { target_id, removed } => match removed {
            Some((pos, n)) => {
                let at = if pos <= d.annotations.len() {
                    pos as int
                } else {
                    d.annotations.len() as int
                };
                (
                    CommandView::Remove { target_id, removed: None },
                    with_annotations(d, d.annotations.insert(at, n)),
                )
            },
            None => (c, d),
        },
        CommandView::Update { target_id, before, after } => match before {
            Some(n) => {
                let p = crate::editor::document::position_of(d.annotations, target_id);
                if p < d.annotations.len() {
                    (
                        CommandView::Update {
                            target_id,
                            before: None,
                            after: Some(d.annotations[p]),
                        },
                        with_annotations(d, d.annotations.update(p, n)),
                    )
                } else {
                    (CommandView::Update { target_id, before: None, after }, d)
                }
            },
            None => (c, d),
        },
        CommandView::RemoveCursor { saved } => match saved {
            Some(cur) => (
                CommandView::RemoveCursor { saved: None },
                DocumentView { cursor: Some(cur), ..d },
            ),
            None => (c, d),
        },
        CommandView::UpdateCursor { before, .. } => match (d.cursor, before) {
            (Some(cur), Some(p)) => (c, DocumentView { cursor: Some(placed(cur, p)), ..d }),
            _ => (c, d),
        },
        CommandView::SetEdgeEffect { before, .. } => (c, DocumentView { edge_effect: before, ..d }),
        CommandView::SetBorder { before, .. } => (c, DocumentView { border: before, ..d }),
    }
}

/// The view of an optional annotation.
pub open spec fn node_view(n: Option<AnnotationNode>) -> Option<NodeView> {
    match n {
        Some(n) => Some(n@),
        None => None,
    }
}

// ---------------------------------------------------------------------------
// Commands
// ---------------------------------------------------------------------------

/// Append a new annotation at the top of the stack.
#[derive(Debug)]
pub struct AddAnnotation {
    node: Option<AnnotationNode>,
    inserted_id: Option<NodeId>,
}

impl View for AddAnnotation {
    type V = CommandView;

    closed spec fn view(&self) -> CommandView {
        CommandView::Add { node: node_view(self.node), inserted_id: self.inserted_id }
    }
}

impl AddAnnotation {
    pub fn new(node: AnnotationNode) -> (r: Self)
        ensures
            r@ == (CommandView::Add { node: Some(node@), inserted_id: None }),
    {
        AddAnnotation { node: Some(node), inserted_id: None }
    }

    pub fn apply(&mut self, doc: &mut Document)
        ensures
            (final(self)@, final(doc)@) == applied(old(self)@, old(doc)@),
    {
        match self.node.take() {
            Some(n) => {
                self.inserted_id = Some(n.id());
                let ghost before = doc.annotations@;
                doc.annotations.push(n);
                assert(doc@ =~= with_annotations(
                    old(doc)@,
                    old(doc)@.annotations.push(n@),
                ));
            },
            None => {},
        }
    }

    pub fn revert(&mut self, doc: &mut Document)
        ensures
            (final(self)@, final(doc)@) == reverted(old(self)@, old(doc)@),
    {
        match self.inserted_id.take() {
            Some(id) => {
                match find_position(&doc.annotations, id) {
                    Some(pos) => {
                        let n = doc.annotations.remove(pos);
                        self.node = Some(n);
                        assert(doc@ =~= with_annotations(
                            old(doc)@,
                            old(doc)@.annotations.remove(pos as int),
                        ));
                    },
                    None => {},
                }
            },
            None => {},
        }
    }
}

/// Remove an annotation, remembering its place in the stack so that `revert`
/// restores the same order.
#[derive(Debug)]
pub struct RemoveAnnotation {
    target_id: NodeId,
    removed: Option<(usize, AnnotationNode)>,
}

/// The view of a remembered annotation.
pub open spec fn removed_view(r: Option<(usize, AnnotationNode)>) -> Option<(usize, NodeView)> {
    match r {
        Some((p, n)) => Some((p, n@)),
        None => None,
    }
}

impl View for RemoveAnnotation {
    type V = CommandView;

    closed spec fn view(&self) -> CommandView {
        CommandView::Remove { target_id: self.target_id, removed: removed_view(self.removed) }
    }
}

impl RemoveAnnotation {
    pub fn new(target_id: NodeId) -> (r: Self)
        ensures
            r@ == (CommandView::Remove { target_id, removed: None }),
    {
        RemoveAnnotation { target_id, removed: None }
    }

    pub fn apply(&mut self, doc: &mut Document)
        ensures
            (final(self)@, final(doc)@) == applied(old(self)@, old(doc)@),
    {
        match find_position(&doc.annotations, self.target_id) {
            Some(pos) => {
                let n = doc.annotations.remove(pos);
                self.removed = Some((pos, n));
                assert(doc@ =~= with_annotations(
                    old(doc)@,
                    old(doc)@.annotations.remove(pos as int),
                ));
            },
            None => {},
        }
    }

    pub fn revert(&mut self, doc: &mut Document)
        ensures
            (final(self)@, final(doc)@) == reverted(old(self)@, old(doc)@),
    {
        match self.removed.take() {
            Some((pos, n)) => {
                let len: usize = doc.annotations.len();
                let at: usize = if pos <= len {
                    pos
                } else {
                    len
                };
                doc.annotations.insert(at, n);
                assert(doc@ =~= with_annotations(
                    old(doc)@,
                    old(doc)@.annotations.insert(at as int, n@),
                ));
            },
            None => {},
        }
    }
}

/// Replace an annotation wholesale (for moves, restyles, text edits).
#[derive(Debug)]
pub struct UpdateAnnotation {
    target_id: NodeId,
    before: Option<AnnotationNode>,
    after: Option<AnnotationNode>,
}

impl View for UpdateAnnotation {
    type V = CommandView;

    closed spec fn view(&self) -> CommandView {
        CommandView::Update {
            target_id: self.target_id,
            before: node_view(self.before),
            after: node_view(self.after),
        }
    }
}

/// Puts `node` in place of the annotation at `pos` and hands that one back.
fn replace_at(doc: &mut Document, pos: usize, node: AnnotationNode) -> (r: AnnotationNode)
    requires
        pos < old(doc).annotations@.len(),
    ensures
        r@ == old(doc)@.annotations[pos as int],
        final(doc)@ == with_annotations(
            old(doc)@,
            old(doc)@.annotations.update(pos as int, node@),
        ),
{
    let ghost n = node@;
    doc.annotations.push(node);
    let prev = doc.annotations.swap_remove(pos);
    assert(doc@ =~= with_annotations(old(doc)@, old(doc)@.annotations.update(pos as int, n)));
    prev
}

impl UpdateAnnotation {
    pub fn new(before: AnnotationNode, after: AnnotationNode) -> (r: Self)
        ensures
            r@ == (CommandView::Update {
                target_id: before@.id(),
                before: Some(before@),
                after: Some(after@),
            }),
    {
        UpdateAnnotation { target_id: before.id(), before: Some(before), after: Some(after) }
    }

    pub fn apply(&mut self, doc: &mut Document)
        ensures
            (final(self)@, final(doc)@) == applied(old(self)@, old(doc)@),
    {
        match self.after.take() {
            Some(after) => {
                match find_position(&doc.annotations, self.target_id) {
                    Some(pos) => {
                        let prev = replace_at(doc, pos, after);
                        self.before = Some(prev);
                    },
                    None => {},
                }
            },
            None => {},
        }
    }

    pub fn revert(&mut self, doc: &mut Document)
        ensures
            (final(self)@, final(doc)@) == reverted(old(self)@, old(doc)@),
    {
        match self.before.take() {
            Some(before) => {
                match find_position(&doc.annotations, self.target_id) {
                    Some(pos) => {
                        let cur = replace_at(doc, pos, before);
                        self.after = Some(cur);
                    },
                    None => {},
                }
            },
            None => {},
        }
    }
}

/// Remove the cursor layer. `revert` restores the same bytes and position.
#[derive(Debug)]
pub struct RemoveCursor {
    saved: Option<SerializedCursor>,
}

impl View for RemoveCursor {
    type V = CommandView;

    closed spec fn view(&self) -> CommandView {
        CommandView::RemoveCursor { saved: crate::editor::document::cursor_view(self.saved) }
    }
}

impl RemoveCursor {
    pub fn new() -> (r: Self)
        ensures
            r@ == (CommandView::RemoveCursor { saved: None }),
    {
        RemoveCursor { saved: None }
    }

    pub fn apply(&mut self, doc: &mut Document)
        ensures
            (final(self)@, final(doc)@) == applied(old(self)@, old(doc)@),
    {
        match doc.cursor.take() {
            Some(c) => {
                self.saved = Some(c);
            },
            None => {},
        }
    }

    pub fn revert(&mut self, doc: &mut Document)
        ensures
            (final(self)@, final(doc)@) == reverted(old(self)@, old(doc)@),
    {
        match self.saved.take() {
            Some(c) => {
                doc.cursor = Some(c);
            },
            None => {},
        }
    }
}

/// Move or resize the cursor layer.
#[derive(Debug)]
pub struct UpdateCursor {
    before: Option<Placement>,
    after: Option<Placement>,
}

impl View for UpdateCursor {
    type V = CommandView;

    closed spec fn view(&self) -> CommandView {
        CommandView::UpdateCursor { before: self.before, after: self.after }
    }
}

fn place_cursor(doc: &mut Document, p: Option<Placement>)
    ensures
        final(doc)@ == (match (old(doc)@.cursor, p) {
            (Some(cur), Some(p)) => DocumentView { cursor: Some(placed(cur, p)), ..old(doc)@ },
            _ => old(doc)@,
        }),
{
    match p {
        Some(p) => {
            match doc.cursor.take() {
                Some(c) => {
                    doc.cursor = Some(
                        SerializedCursor {
                            png: c.png,
                            x: p.0,
                            y: p.1,
                            width: p.2,
                            height: p.3,
                        },
                    );
                },
                None => {},
            }
        },
        None => {},
    }
}

impl UpdateCursor {
    pub fn new(before: (i32, i32, u32, u32), after: (i32, i32, u32, u32)) -> (r: Self)
        ensures
            r@ == (CommandView::UpdateCursor { before: Some(before), after: Some(after) }),
    {
        UpdateCursor { before: Some(before), after: Some(after) }
    }

    pub fn apply(&mut self, doc: &mut Document)
        ensures
            (final(self)@, final(doc)@) == applied(old(self)@, old(doc)@),
    {
        place_cursor(doc, self.after);
    }

    pub fn revert(&mut self, doc: &mut Document)
        ensures
            (final(self)@, final(doc)@) == reverted(old(self)@, old(doc)@),
    {
        place_cursor(doc, self.before);
    }
}

/// Set or clear the document-level torn-edge effect.
#[derive(Debug)]
pub struct SetEdgeEffect {
    before: Option<EdgeEffect>,
    after: Option<EdgeEffect>,
}

impl View for SetEdgeEffect {
    type V = CommandView;

    closed spec fn view(&self) -> CommandView {
        CommandView::SetEdgeEffect { before: self.before, after: self.after }
    }
}

impl SetEdgeEffect {
    pub fn new(before: Option<EdgeEffect>, after: Option<EdgeEffect>) -> (r: Self)
        ensures
            r@ == (CommandView::SetEdgeEffect { before, after }),
    {
        SetEdgeEffect { before, after }
    }

    pub fn apply(&mut self, doc: &mut Document)
        ensures
            (final(self)@, final(doc)@) == applied(old(self)@, old(doc)@),
    {
        doc.edge_effect = self.after;
    }

    pub fn revert(&mut self, doc: &mut Document)
        ensures
            (final(self)@, final(doc)@) == reverted(old(self)@, old(doc)@),
    {
        doc.edge_effect = self.before;
    }
}

/// Set or clear the document-level border.
#[derive(Debug)]
pub struct SetBorder {
    before: Option<Border>,
    after: Option<Border>,
}

impl View for SetBorder {
    type V = CommandView;

    closed spec fn view(&self) -> CommandView {
        CommandView::SetBorder { before: self.before, after: self.after }
    }
}

impl SetBorder {
    pub fn new(before: Option<Border>, after: Option<Border>) -> (r: Self)
        ensures
            r@ == (CommandView::SetBorder { before, after }),
    {
        SetBorder { before, after }
    }

    pub fn apply(&mut self, doc: &mut Document)
        ensures
            (final(self)@, final(doc)@) == applied(old(self)@, old(doc)@),
    {
        doc.border = self.after;
    }

    pub fn revert(&mut self, doc: &mut Document)
        ensures
            (final(self)@, final(doc)@) == reverted(old(self)@, old(doc)@),
    {
        doc.border = self.before;
    }
}

/// Any command.
#[derive(Debug)]
pub enum Command {
    Add(AddAnnotation),
    Remove(RemoveAnnotation),
    Update(UpdateAnnotation),
    RemoveCursor(RemoveCursor),
    UpdateCursor(UpdateCursor),
    SetEdgeEffect(SetEdgeEffect),
    SetBorder(SetBorder),
}

impl View for Command {
    type V = CommandView;

    open spec fn view(&self) -> CommandView {
        match *self {
            Command::Add(c) => c@,
            Command::Remove(c) => c@,
            Command::Update(c) => c@,
            Command::RemoveCursor(c) => c@,
            Command::UpdateCursor(c) => c@,
            Command::SetEdgeEffect(c) => c@,
            Command::SetBorder(c) => c@,
        }
    }
}

impl Command {
    pub fn apply(&mut self, doc: &mut Document)
        ensures
            (final(self)@, final(doc)@) == applied(old(self)@, old(doc)@),
    {
        match self {
            Command::Add(c) => c.apply(doc),
            Command::Remove(c) => c.apply(doc),
            Command::Update(c) => c.apply(doc),
            Command::RemoveCursor(c) => c.apply(doc),
            Command::UpdateCursor(c) => c.apply(doc),
            Command::SetEdgeEffect(c) => c.apply(doc),
            Command::SetBorder(c) => c.apply(doc),
        }
    }

    pub fn revert(&mut self, doc: &mut Document)
        ensures
            (final(self)@, final(doc)@) == reverted(old(self)@, old(doc)@),
    {
        match self {
            Command::Add(c) => c.revert(doc),
            Command::Remove(c) => c.revert(doc),
            Command::Update(c) => c.revert(doc),
            Command::RemoveCursor(c) => c.revert(doc),
            Command::UpdateCursor(c) => c.revert(doc),
            Command::SetEdgeEffect(c) => c.revert(doc),
            Command::SetBorder(c) => c.revert(doc),
        }
    }
}

// ---------------------------------------------------------------------------
// History
// ---------------------------------------------------------------------------

/// The views of a list of commands.
pub open spec fn command_views(v: Seq<Command>) -> Seq<CommandView> {
    v.map_values(|c: Command| c@)
}

/// The two stacks of a history, oldest command first.
#[verifier::ext_equal]
pub struct HistoryView {
    pub undo: Seq<CommandView>,
    pub redo: Seq<CommandView>,
}

/// The newest `n` entries of a stack.
pub open spec fn newest(s: Seq<CommandView>, n: int) -> Seq<CommandView> {
    if s.len() <= n {
        s
    } else {
        s.subrange(s.len() - n, s.len() as int)
    }
}

/// The history and the document after a command is pushed.
pub open spec fn pushed(h: HistoryView, c: CommandView, d: DocumentView) -> (
    HistoryView,
    DocumentView,
) {
    let (done, doc) = applied(c, d);
    (
        HistoryView { undo: newest(h.undo.push(done), HISTORY_LIMIT as int), redo: Seq::empty() },
        doc,
    )
}

/// The history and the document after one step back.
pub open spec fn undone(h: HistoryView, d: DocumentView) -> (HistoryView, DocumentView) {
    if h.undo.len() == 0 {
        (h, d)
    } else {
        let (c, doc) = reverted(h.undo.last(), d);
        (HistoryView { undo: h.undo.drop_last(), redo: h.redo.push(c) }, doc)
    }
}

/// The history and the document after one step forward.
pub open spec fn redone(h: HistoryView, d: DocumentView) -> (HistoryView, DocumentView) {
    if h.redo.len() == 0 {
        (h, d)
    } else {
        let (c, doc) = applied(h.redo.last(), d);
        (HistoryView { undo: h.undo.push(c), redo: h.redo.drop_last() }, doc)
    }
}

/// A bounded stack of commands. Pushing a new command after an undo clears
/// the redo stack.
#[derive(Debug)]
pub struct History {
    undo: Vec<Command>,
    redo: Vec<Command>,
}

impl View for History {
    type V = HistoryView;

    closed spec fn view(&self) -> HistoryView {
        HistoryView { undo: command_views(self.undo@), redo: command_views(self.redo@) }
    }
}

impl Default for History {
    fn default() -> (r: Self)
        ensures
            r@.undo == Seq::<CommandView>::empty(),
            r@.redo == Seq::<CommandView>::empty(),
    {
        History::new()
    }
}

impl History {
    pub fn new() -> (r: Self)
        ensures
            r@.undo == Seq::<CommandView>::empty(),
            r@.redo == Seq::<CommandView>::empty(),
    {
        History { undo: Vec::new(), redo: Vec::new() }
    }

    /// Applies a command and pushes it onto the undo stack. Clears redo.
    pub fn push(&mut self, cmd: Command, doc: &mut Document)
        ensures
            (final(self)@, final(doc)@) == pushed(old(self)@, cmd@, old(doc)@),
    {
        let mut cmd = cmd;
        cmd.apply(doc);
        self.redo.clear();
        self.undo.push(cmd);
        let ghost full = command_views(self.undo@);
        assert(full =~= old(self)@.undo.push(cmd@));
        while self.undo.len() > HISTORY_LIMIT
            invariant
                self.redo@ == Seq::<Command>::empty(),
                self.undo@.len() <= full.len(),
                full.len() >= HISTORY_LIMIT ==> self.undo@.len() >= HISTORY_LIMIT,
                full.len() < HISTORY_LIMIT ==> self.undo@.len() == full.len(),
                command_views(self.undo@) == full.subrange(
                    full.len() - self.undo@.len(),
                    full.len() as int,
                ),
            decreases self.undo@.len(),
        {
            let ghost prev = self.undo@;
            let _ = self.undo.remove(0);
            assert(command_views(self.undo@) =~= command_views(prev).remove(0));
            assert(full.subrange(full.len() - prev.len(), full.len() as int).remove(0)
                =~= full.subrange(full.len() - self.undo@.len(), full.len() as int));
        }
        assert(self@.undo =~= newest(full, HISTORY_LIMIT as int));
        assert(self@.redo =~= Seq::empty());
    }

    pub fn can_undo(&self) -> (r: bool)
        ensures
            r == (self@.undo.len() > 0),
    {
        self.undo.len() > 0
    }

    pub fn can_redo(&self) -> (r: bool)
        ensures
            r == (self@.redo.len() > 0),
    {
        self.redo.len() > 0
    }

    /// How many steps back the history holds.
    pub fn undo_len(&self) -> (r: usize)
        ensures
            r == self@.undo.len(),
    {
        self.undo.len()
    }

    /// Takes one step back; false if there is none.
    pub fn undo(&mut self, doc: &mut Document) -> (r: bool)
        ensures
            r == (old(self)@.undo.len() > 0),
            (final(self)@, final(doc)@) == undone(old(self)@, old(doc)@),
    {
        match self.undo.pop() {
            Some(mut cmd) => {
                assert(cmd@ == old(self)@.undo.last());
                cmd.revert(doc);
                self.redo.push(cmd);
                assert(self@.undo =~= old(self)@.undo.drop_last());
                assert(self@.redo =~= old(self)@.redo.push(cmd@));
                true
            },
            None => false,
        }
    }

    /// Takes one step forward; false if there is none.
    pub fn redo(&mut self, doc: &mut Document) -> (r: bool)
        ensures
            r == (old(self)@.redo.len() > 0),
            (final(self)@, final(doc)@) == redone(old(self)@, old(doc)@),
    {
        match self.redo.pop() {
            Some(mut cmd) => {
                assert(cmd@ == old(self)@.redo.last());
                cmd.apply(doc);
                self.undo.push(cmd);
                assert(self@.redo =~= old(self)@.redo.drop_last());
                assert(self@.undo =~= old(self)@.undo.push(cmd@));
                true
            },
            None => false,
        }
    }

    pub fn clear(&mut self)
        ensures
            final(self)@.undo == Seq::<CommandView>::empty(),
            final(self)@.redo == Seq::<CommandView>::empty(),
    {
        self.undo.clear();
        self.redo.clear();
    }
}

// ---------------------------------------------------------------------------
// Laws
// ---------------------------------------------------------------------------

/// A command as `new` makes it, pointed at the document as it stands: an added
/// annotation has an identity of its own, an update keeps the identity, and a
/// remembered old value is the present one.
pub open spec fn well_aimed(c: CommandView, d: DocumentView) -> bool {
    match c {
        CommandView::Add { node, inserted_id } => {
            &&& inserted_id is None
            &&& node matches Some(n) ==> !crate::editor::document::has_id(d.annotations, n.id())
        },
        CommandView::Remove { removed, .. } => removed is None && d.annotations.len() <= usize::MAX,
        CommandView::Update { target_id, before, after } => {
            crate::editor::document::has_id(d.annotations, target_id) ==> {
                &&& after matches Some(n) && n.id() == target_id
            }
        },
        CommandView::RemoveCursor { saved } => saved is None,
        CommandView::UpdateCursor { before, after } => d.cursor matches Some(cur) ==> {
            before matches Some(p) && placed(cur, p) == cur
        },
        CommandView::SetEdgeEffect { before, .. } => before == d.edge_effect,
        CommandView::SetBorder { before, .. } => before == d.border,
    }
}

/// Reverting what was just applied gives the document back.
pub proof fn law_revert_undoes_apply(c: CommandView, d: DocumentView)
    requires
        well_aimed(c, d),
    ensures
        ({
            let (done, doc) = applied(c, d);
            reverted(done, doc).1 == d
        }),
{
    let (done, doc) = applied(c, d);
    match c {
        CommandView::Add { node, .. } => {
            if let Some(n) = node {
                crate::editor::document::lemma_position_of(d.annotations, n.id());
                let p = d.annotations.len() as int;
                assert forall|k: int| 0 <= k < p implies (#[trigger] doc.annotations[k]).id()
                    != n.id() by {
                    assert(doc.annotations[k] == d.annotations[k]);
                }
                crate::editor::document::lemma_position_is(doc.annotations, n.id(), p);
                assert(doc.annotations.remove(p) =~= d.annotations);
            }
        },
        CommandView::Remove { target_id, .. } => {
            crate::editor::document::lemma_position_of(d.annotations, target_id);
            let p = crate::editor::document::position_of(d.annotations, target_id);
            if p < d.annotations.len() {
                assert(d.annotations.remove(p).insert(p, d.annotations[p]) =~= d.annotations);
            }
        },
        CommandView::Update { target_id, after, .. } => {
            crate::editor::document::lemma_position_of(d.annotations, target_id);
            let p = crate::editor::document::position_of(d.annotations, target_id);
            if p < d.annotations.len() && after is Some {
                assert forall|k: int| 0 <= k < p implies (#[trigger] doc.annotations[k]).id()
                    != target_id by {
                    assert(doc.annotations[k] == d.annotations[k]);
                }
                crate::editor::document::lemma_position_is(doc.annotations, target_id, p);
                assert(doc.annotations.update(p, d.annotations[p]) =~= d.annotations);
            }
        },
        _ => {},
    }
    assert(reverted(done, doc).1 =~= d);
}

/// Applying again what was just reverted gives the changed document back.
pub proof fn law_apply_redoes_revert(c: CommandView, d: DocumentView)
    requires
        well_aimed(c, d),
    ensures
        ({
            let (done, doc) = applied(c, d);
            let (back, orig) = reverted(done, doc);
            applied(back, orig).1 == doc
        }),
{
    law_revert_undoes_apply(c, d);
    let (done, doc) = applied(c, d);
    let (back, orig) = reverted(done, doc);
    match c {
        CommandView::Add { node, .. } => {
            if let Some(n) = node {
                crate::editor::document::lemma_position_of(d.annotations, n.id());
                let p = d.annotations.len() as int;
                assert forall|k: int| 0 <= k < p implies (#[trigger] doc.annotations[k]).id()
                    != n.id() by {
                    assert(doc.annotations[k] == d.annotations[k]);
                }
                crate::editor::document::lemma_position_is(doc.annotations, n.id(), p);
            }
        },
        CommandView::Remove { target_id, .. } => {
            crate::editor::document::lemma_position_of(d.annotations, target_id);
        },
        CommandView::Update { target_id, after, .. } => {
            crate::editor::document::lemma_position_of(d.annotations, target_id);
            let p = crate::editor::document::position_of(d.annotations, target_id);
            if p < d.annotations.len() && after is Some {
                assert forall|k: int| 0 <= k < p implies (#[trigger] doc.annotations[k]).id()
                    != target_id by {
                    assert(doc.annotations[k] == d.annotations[k]);
                }
                crate::editor::document::lemma_position_is(doc.annotations, target_id, p);
                assert(d.annotations.update(p, doc.annotations[p]) =~= doc.annotations);
            }
        },
        _ => {},
    }
}

/// A command never touches the base image, the metadata, the identity or the
/// format version of a document.
pub proof fn law_base_untouched(c: CommandView, d: DocumentView)
    ensures
        forall|e: DocumentView|
            (e == applied(c, d).1 || e == reverted(c, d).1) ==> {
                &&& #[trigger] e.base_png == d.base_png
                &&& e.base_width == d.base_width
                &&& e.base_height == d.base_height
                &&& e.metadata == d.metadata
                &&& e.id == d.id
                &&& e.schema_version == d.schema_version
            },
{
}

/// The undo stack never grows beyond the limit, and a push leaves nothing to
/// redo.
pub proof fn law_history_bounded(h: HistoryView, c: CommandView, d: DocumentView)
    ensures
        pushed(h, c, d).0.undo.len() <= HISTORY_LIMIT,
        pushed(h, c, d).0.redo.len() == 0,
        h.undo.len() + h.redo.len() <= HISTORY_LIMIT ==> {
            &&& undone(h, d).0.undo.len() + undone(h, d).0.redo.len() <= HISTORY_LIMIT
            &&& redone(h, d).0.undo.len() + redone(h, d).0.redo.len() <= HISTORY_LIMIT
        },
{
}

/// An undo right after a push gives back the document, and the undo stack as it was
/// but for the oldest entry where a full stack had to let it go; a redo right after
/// that brings the change back.
pub proof fn law_undo_redo_after_push(h: HistoryView, c: CommandView, d: DocumentView)
    requires
        well_aimed(c, d),
    ensures
        ({
            let (h1, d1) = pushed(h, c, d);
            let (h2, d2) = undone(h1, d1);
            let (h3, d3) = redone(h2, d2);
            &&& d2 == d
            &&& h2.undo == newest(h.undo, HISTORY_LIMIT - 1)
            &&& h.undo.len() < HISTORY_LIMIT ==> h2.undo == h.undo
            &&& d3 == d1
            &&& h3.redo.len() == 0
        }),
{
    law_revert_undoes_apply(c, d);
    law_apply_redoes_revert(c, d);
    let (h1, d1) = pushed(h, c, d);
    let (h2, d2) = undone(h1, d1);
    assert(h1.undo.last() == applied(c, d).0);
    assert(h2.undo =~= newest(h.undo, HISTORY_LIMIT - 1));
    assert(h2.redo =~= seq![reverted(applied(c, d).0, d1).0]);
}

/// The history and the document after a series of pushes.
pub open spec fn pushed_all(h: HistoryView, cs: Seq<CommandView>, d: DocumentView) -> (
    HistoryView,
    DocumentView,
)
    decreases cs.len(),
{
    if cs.len() == 0 {
        (h, d)
    } else {
        let (h1, d1) = pushed_all(h, cs.drop_last(), d);
        pushed(h1, cs.last(), d1)
    }
}

/// Each command of a series is well aimed when its turn comes.
pub open spec fn all_well_aimed(h: HistoryView, cs: Seq<CommandView>, d: DocumentView) -> bool
    decreases cs.len(),
{
    cs.len() > 0 ==> {
        &&& all_well_aimed(h, cs.drop_last(), d)
        &&& well_aimed(cs.last(), pushed_all(h, cs.drop_last(), d).1)
    }
}

/// The history and the document after `n` steps back.
pub open spec fn undone_times(h: HistoryView, d: DocumentView, n: nat) -> (
    HistoryView,
    DocumentView,
)
    decreases n,
{
    if n == 0 {
        (h, d)
    } else {
        let (h1, d1) = undone(h, d);
        undone_times(h1, d1, (n - 1) as nat)
    }
}

/// The history and the document after `n` steps forward.
pub open spec fn redone_times(h: HistoryView, d: DocumentView, n: nat) -> (
    HistoryView,
    DocumentView,
)
    decreases n,
{
    if n == 0 {
        (h, d)
    } else {
        let (h1, d1) = redone(h, d);
        redone_times(h1, d1, (n - 1) as nat)
    }
}

/// Redoing the whole redo stack leads from one document to the other.
pub open spec fn leads_to(redo: Seq<CommandView>, d: DocumentView, goal: DocumentView) -> bool
    decreases redo.len(),
{
    if redo.len() == 0 {
        d == goal
    } else {
        leads_to(redo.drop_last(), applied(redo.last(), d).1, goal)
    }
}

proof fn lemma_pushed_all_stack(h: HistoryView, cs: Seq<CommandView>, d: DocumentView)
    requires
        h.undo.len() + cs.len() <= HISTORY_LIMIT,
    ensures
        pushed_all(h, cs, d).0.undo.len() == h.undo.len() + cs.len(),
        cs.len() > 0 ==> pushed_all(h, cs, d).0.redo.len() == 0,
    decreases cs.len(),
{
    if cs.len() > 0 {
        lemma_pushed_all_stack(h, cs.drop_last(), d);
    }
}

proof fn lemma_undo_all(
    h: HistoryView,
    cs: Seq<CommandView>,
    d: DocumentView,
    redo: Seq<CommandView>,
    goal: DocumentView,
)
    requires
        all_well_aimed(h, cs, d),
        h.undo.len() + cs.len() <= HISTORY_LIMIT,
        leads_to(redo, pushed_all(h, cs, d).1, goal),
    ensures
        ({
            let (h1, d1) = pushed_all(h, cs, d);
            let (h2, d2) = undone_times(
                HistoryView { undo: h1.undo, redo },
                d1,
                cs.len(),
            );
            &&& d2 == d
            &&& h2.undo == h.undo
            &&& h2.redo.len() == redo.len() + cs.len()
            &&& leads_to(h2.redo, d2, goal)
        }),
    decreases cs.len(),
{
    if cs.len() > 0 {
        let front = cs.drop_last();
        let c = cs.last();
        let (h0, d0) = pushed_all(h, front, d);
        lemma_pushed_all_stack(h, front, d);
        let (h1, d1) = pushed(h0, c, d0);
        law_revert_undoes_apply(c, d0);
        law_apply_redoes_revert(c, d0);
        let done = applied(c, d0).0;
        let back = reverted(done, d1).0;
        assert(h1.undo =~= h0.undo.push(done));
        let start = HistoryView { undo: h1.undo, redo };
        assert(undone(start, d1).0 =~= HistoryView { undo: h0.undo, redo: redo.push(back) });
        assert(undone(start, d1).1 == d0);
        assert(redo.push(back).drop_last() =~= redo);
        assert(leads_to(redo.push(back), d0, goal));
        lemma_undo_all(h, front, d, redo.push(back), goal);
    }
}

proof fn lemma_redo_all(h: HistoryView, d: DocumentView, goal: DocumentView)
    requires
        leads_to(h.redo, d, goal),
    ensures
        redone_times(h, d, h.redo.len()).1 == goal,
        redone_times(h, d, h.redo.len()).0.redo.len() == 0,
    decreases h.redo.len(),
{
    if h.redo.len() > 0 {
        let (h1, d1) = redone(h, d);
        lemma_redo_all(h1, d1, goal);
    }
}

/// After any series of edits that the history can hold, undoing as many times
/// gives the first document back, and redoing as many times the last one.
pub proof fn law_undo_all_redo_all(h: HistoryView, cs: Seq<CommandView>, d: DocumentView)
    requires
        all_well_aimed(h, cs, d),
        h.undo.len() + cs.len() <= HISTORY_LIMIT,
        cs.len() > 0,
    ensures
        ({
            let (h1, d1) = pushed_all(h, cs, d);
            let (h2, d2) = undone_times(h1, d1, cs.len());
            let (h3, d3) = redone_times(h2, d2, cs.len());
            &&& d2 == d
            &&& h2.undo == h.undo
            &&& d3 == d1
            &&& h3.redo.len() == 0
        }),
{
    let (h1, d1) = pushed_all(h, cs, d);
    lemma_pushed_all_stack(h, cs, d);
    let empty = Seq::<CommandView>::empty();
    lemma_undo_all(h, cs, d, empty, d1);
    assert(h1 =~= HistoryView { undo: h1.undo, redo: empty });
    let (h2, d2) = undone_times(h1, d1, cs.len());
    lemma_redo_all(h2, d2, d1);
}

/// A history in which nothing has been done.
pub open spec fn fresh() -> HistoryView {
    HistoryView { undo: Seq::empty(), redo: Seq::empty() }
}

/// The commands of a series as the undo stack keeps them, each after its turn.
spec fn done_all(cs: Seq<CommandView>, d: DocumentView) -> Seq<CommandView>
    decreases cs.len(),
{
    if cs.len() == 0 {
        Seq::empty()
    } else {
        let before = pushed_all(fresh(), cs.drop_last(), d).1;
        done_all(cs.drop_last(), d).push(applied(cs.last(), before).0)
    }
}

proof fn lemma_done_all(cs: Seq<CommandView>, d: DocumentView)
    ensures
        done_all(cs, d).len() == cs.len(),
        pushed_all(fresh(), cs, d).0.undo == newest(done_all(cs, d), HISTORY_LIMIT as int),
    decreases cs.len(),
{
    if cs.len() > 0 {
        lemma_done_all(cs.drop_last(), d);
        let kept = newest(done_all(cs.drop_last(), d), HISTORY_LIMIT as int);
        assert(newest(kept.push(done_all(cs, d).last()), HISTORY_LIMIT as int) =~= newest(
            done_all(cs, d),
            HISTORY_LIMIT as int,
        ));
    }
}

proof fn lemma_undo_newest(h: HistoryView, cs: Seq<CommandView>, d: DocumentView, m: int, k: nat)
    requires
        all_well_aimed(fresh(), cs, d),
        k <= m <= cs.len(),
        h.undo == newest(done_all(cs, d), m),
    ensures
        ({
            let (h1, e) = undone_times(h, pushed_all(fresh(), cs, d).1, k);
            &&& h1.undo.len() == m - k
            &&& e == pushed_all(fresh(), cs.take(cs.len() - k), d).1
        }),
    decreases k,
{
    lemma_done_all(cs, d);
    if k == 0 {
        assert(cs.take(cs.len() as int) =~= cs);
    } else {
        let less = cs.drop_last();
        lemma_done_all(less, d);
        let before = pushed_all(fresh(), less, d).1;
        law_revert_undoes_apply(cs.last(), before);
        let doc = pushed_all(fresh(), cs, d).1;
        let (h1, e) = undone(h, doc);
        assert(h.undo.last() == done_all(cs, d).last());
        assert(e == before);
        assert(h1.undo =~= newest(done_all(less, d), m - 1));
        lemma_undo_newest(h1, less, d, m - 1, (k - 1) as nat);
        assert(less.take(less.len() - (k - 1)) =~= cs.take(cs.len() - k));
    }
}

/// After any series of edits on a fresh history, as many of them can be undone as
/// were made, but never more than the limit, the newest first: `k` steps back give the
/// document as it was before the `k` newest edits, and when all are taken back a
/// further undo does nothing.
pub proof fn law_undo_depth(cs: Seq<CommandView>, d: DocumentView, k: nat)
    requires
        all_well_aimed(fresh(), cs, d),
        k <= cs.len(),
        k <= HISTORY_LIMIT,
    ensures
        ({
            let (h, e) = pushed_all(fresh(), cs, d);
            let (h1, e1) = undone_times(h, e, k);
            &&& h.undo.len() == if cs.len() < HISTORY_LIMIT {
                cs.len() as int
            } else {
                HISTORY_LIMIT as int
            }
            &&& h1.undo.len() == h.undo.len() - k
            &&& e1 == pushed_all(fresh(), cs.take(cs.len() - k), d).1
            &&& k == h.undo.len() ==> undone(h1, e1) == (h1, e1)
        }),
{
    let (h, e) = pushed_all(fresh(), cs, d);
    lemma_done_all(cs, d);
    let m: int = h.undo.len() as int;
    assert(h.undo =~= newest(done_all(cs, d), m));
    lemma_undo_newest(h, cs, d, m, k);
}

/// What each command does: adding puts the annotation on top of the others,
/// removing closes the gap that the first one with the id leaves, changing puts
/// the new one in its place. A cursor is taken away, or placed with its picture
/// kept; an effect is the one that was set. Nothing else of the document
/// changes.
pub proof fn law_commands_do_what_they_say(c: CommandView, d: DocumentView)
    ensures
        ({
            let after = applied(c, d).1;
            &&& c matches CommandView::Add { node: Some(n), .. } ==> after == (DocumentView {
                annotations: d.annotations.push(n),
                ..d
            })
            &&& c matches CommandView::Remove { target_id, .. } ==> {
                let p = crate::editor::document::position_of(d.annotations, target_id);
                &&& after == (DocumentView { annotations: after.annotations, ..d })
                &&& p < d.annotations.len() ==> d.annotations[p].id() == target_id
                    && after.annotations.take(p) == d.annotations.take(p) && after.annotations.skip(
                    p,
                ) == d.annotations.skip(p + 1)
                &&& p >= d.annotations.len() ==> after == d
            }
            &&& c matches CommandView::Update { target_id, after: Some(n), .. } ==> {
                let p = crate::editor::document::position_of(d.annotations, target_id);
                &&& after == (DocumentView { annotations: after.annotations, ..d })
                &&& p < d.annotations.len() ==> d.annotations[p].id() == target_id
                    && after.annotations[p] == n && after.annotations.take(p) == d.annotations.take(
                    p,
                ) && after.annotations.skip(p + 1) == d.annotations.skip(p + 1)
                &&& p >= d.annotations.len() ==> after == d
            }
            &&& c is RemoveCursor ==> after == (DocumentView { cursor: None, ..d })
            &&& c matches CommandView::UpdateCursor { after: Some(p), .. } ==> {
                let cur = after.cursor->Some_0;
                &&& after == (DocumentView { cursor: after.cursor, ..d })
                &&& after.cursor is Some <==> d.cursor is Some
                &&& d.cursor is Some ==> cur.x == p.0 && cur.y == p.1 && cur.width == p.2
                    && cur.height == p.3
                &&& d.cursor is Some ==> cur.png == d.cursor->Some_0.png
            }
            &&& c matches CommandView::SetEdgeEffect { after: e, .. } ==> after == (DocumentView {
                edge_effect: e,
                ..d
            })
            &&& c matches CommandView::SetBorder { after: b, .. } ==> after == (DocumentView {
                border: b,
                ..d
            })
        }),
{
    let after = applied(c, d).1;
    if c is Remove {
        let id = c->Remove_target_id;
        crate::editor::document::law_found_at_the_first_place(d.annotations, id);
        let p = crate::editor::document::position_of(d.annotations, id);
        if p < d.annotations.len() {
            assert(after.annotations.take(p) =~= d.annotations.take(p));
            assert(after.annotations.skip(p) =~= d.annotations.skip(p + 1));
        }
    }
    if c is Update && c->Update_after is Some {
        let id = c->Update_target_id;
        crate::editor::document::law_found_at_the_first_place(d.annotations, id);
        let p = crate::editor::document::position_of(d.annotations, id);
        if p < d.annotations.len() {
            assert(after.annotations.take(p) =~= d.annotations.take(p));
            assert(after.annotations.skip(p + 1) =~= d.annotations.skip(p + 1));
        }
    }
}

/// A full history forgets its oldest step: the newest ones stay, in order, and
/// a new command makes what was undone before unreachable.
pub proof fn law_oldest_step_is_forgotten(h: HistoryView, c: CommandView, d: DocumentView)
    ensures
        ({
            let after = pushed(h, c, d).0;
            &&& after.redo.len() == 0
            &&& after.undo.len() <= HISTORY_LIMIT
            &&& after.undo.last() == applied(c, d).0
            &&& h.undo.len() < HISTORY_LIMIT ==> after.undo.drop_last() == h.undo
            &&& h.undo.len() >= HISTORY_LIMIT ==> after.undo.len() == HISTORY_LIMIT
                && after.undo.drop_last() == h.undo.skip(h.undo.len() - HISTORY_LIMIT + 1)
        }),
{
    let after = pushed(h, c, d).0;
    if h.undo.len() < HISTORY_LIMIT {
        assert(after.undo.drop_last() =~= h.undo);
    } else {
        assert(after.undo.drop_last() =~= h.undo.skip(h.undo.len() - HISTORY_LIMIT + 1));
    }
}

} // verus!
