//! One editing session: the document with its history, the tool, the selection
//! and the drag in progress. Every action of the user is one method.
use vstd::prelude::*;
use crate::editor::commands::{
    AddAnnotation, Command, CommandView, History, HistoryView, RemoveAnnotation, UpdateAnnotation,
};
use crate::editor::document::{
    copy_fields, find_position, AnnotationNode, CaptureInfoStyle, Document, DocumentView, FieldKind,
    NodeId, NodeView, ShapeKind, StampSource,
};
use crate::editor::style::{ToolStyle, ToolStyleView};
use crate::editor::tools::selection::{
    handle_at, hit_test, resize_node, translate_node, Handle, NearHandles,
};
use crate::editor::tools::Tool;
use crate::hotkeys::bindings::KeyCode;
use crate::px::{Bounds, Point, Px, Rgba, BITS_16, BITS_1_5, BITS_2};
use crate::settings::ui::{Held, PressedKey};
use crate::settings::Settings;
use crate::text::{
    decimal_chars, from_chars, is_text, push_chars, push_text, same_str, to_chars, to_lower,
};

verus! {

/// The drag in progress.
#[derive(Debug)]
pub enum Pending {
    /// A new annotation between two corners.
    Rect { start: Point, cur: Point },
    /// An annotation is being moved.
    Move {
        target: NodeId,
        start_node: AnnotationNode,
        start_mouse: Point,
        cur_mouse: Point,
    },
    /// A handle of an annotation is being dragged.
    Resize {
        target: NodeId,
        start_node: AnnotationNode,
        start_mouse: Point,
        cur_mouse: Point,
        handle: Handle,
    },
}

/// The drag in progress as plain values.
pub enum PendingView {
    Rect { start: Point, cur: Point },
    Move { target: NodeId, start_node: NodeView, start_mouse: Point, cur_mouse: Point },
    Resize {
        target: NodeId,
        start_node: NodeView,
        start_mouse: Point,
        cur_mouse: Point,
        handle: Handle,
    },
}

impl View for Pending {
    type V = PendingView;

    open spec fn view(&self) -> PendingView {
        match *self {
            Pending::Rect { start, cur } => PendingView::Rect { start, cur },
            Pending::Move { target, start_node, start_mouse, cur_mouse } => PendingView::Move {
                target,
                start_node: start_node@,
                start_mouse,
                cur_mouse,
            },
            Pending::Resize { target, start_node, start_mouse, cur_mouse, handle } =>
            PendingView::Resize { target, start_node: start_node@, start_mouse, cur_mouse, handle },
        }
    }
}

/// The view of a drag, if there is one.
pub open spec fn pending_view(p: Option<Pending>) -> Option<PendingView> {
    match p {
        Some(p) => Some(p@),
        None => None,
    }
}

/// A text box whose text is being edited, and what it was when that began.
#[derive(Debug)]
pub struct Editing {
    pub id: NodeId,
    pub original: AnnotationNode,
}

/// The view of a text edit, if there is one.
pub open spec fn editing_view(e: Option<Editing>) -> Option<(NodeId, NodeView)> {
    match e {
        Some(e) => Some((e.id, e.original@)),
        None => None,
    }
}

/// An editing session.
#[derive(Debug)]
pub struct Session {
    pub document: Document,
    pub history: History,
    /// There are changes that are not saved.
    pub dirty: bool,
    pub tool: Tool,
    pub selected: Option<NodeId>,
    pub pending: Option<Pending>,
    pub style: ToolStyle,
    pub editing: Option<Editing>,
    /// Copy the picture to the clipboard when it is saved.
    pub copy_on_save: bool,
    /// Where the picture was saved last.
    pub last_saved: Option<String>,
    /// The question about unsaved changes is shown.
    pub close_prompt: bool,
}

/// A session as plain values.
#[verifier::ext_equal]
pub struct SessionView {
    pub document: DocumentView,
    pub history: HistoryView,
    pub dirty: bool,
    pub tool: Tool,
    pub selected: Option<NodeId>,
    pub pending: Option<PendingView>,
    pub style: ToolStyleView,
    pub editing: Option<(NodeId, NodeView)>,
    pub copy_on_save: bool,
    pub last_saved: Option<Seq<char>>,
    pub close_prompt: bool,
}

impl View for Session {
    type V = SessionView;

    open spec fn view(&self) -> SessionView {
        SessionView {
            document: self.document@,
            history: self.history@,
            dirty: self.dirty,
            tool: self.tool,
            selected: self.selected,
            pending: pending_view(self.pending),
            style: self.style@,
            editing: editing_view(self.editing),
            copy_on_save: self.copy_on_save,
            last_saved: crate::text::optional_text(self.last_saved),
            close_prompt: self.close_prompt,
        }
    }
}

// ---------------------------------------------------------------------------
// Commands
// ---------------------------------------------------------------------------

/// The session after a command.
pub open spec fn executed(s: SessionView, c: CommandView) -> SessionView {
    let (history, document) = crate::editor::commands::pushed(s.history, c, s.document);
    SessionView { document, history, dirty: true, ..s }
}

/// The session one step back.
pub open spec fn undone(s: SessionView) -> SessionView {
    let (history, document) = crate::editor::commands::undone(s.history, s.document);
    SessionView { document, history, dirty: s.dirty || s.history.undo.len() > 0, ..s }
}

/// The session one step forward.
pub open spec fn redone(s: SessionView) -> SessionView {
    let (history, document) = crate::editor::commands::redone(s.history, s.document);
    SessionView { document, history, dirty: s.dirty || s.history.redo.len() > 0, ..s }
}

/// The command that adds an annotation.
pub open spec fn adding(n: NodeView) -> CommandView {
    CommandView::Add { node: Some(n), inserted_id: None }
}

/// The command that removes an annotation.
pub open spec fn removing(id: NodeId) -> CommandView {
    CommandView::Remove { target_id: id, removed: None }
}

/// The command that changes an annotation.
pub open spec fn changing(before: NodeView, after: NodeView) -> CommandView {
    CommandView::Update { target_id: before.id(), before: Some(before), after: Some(after) }
}

/// The annotation with this identity.
pub open spec fn node_with(d: DocumentView, id: NodeId) -> Option<NodeView> {
    let p = crate::editor::document::position_of(d.annotations, id);
    if p < d.annotations.len() {
        Some(d.annotations[p])
    } else {
        None
    }
}

/// The document with the annotation of this identity replaced, past the history.
pub open spec fn replaced(d: DocumentView, id: NodeId, n: NodeView) -> DocumentView {
    let p = crate::editor::document::position_of(d.annotations, id);
    if p < d.annotations.len() {
        DocumentView { annotations: d.annotations.update(p, n), ..d }
    } else {
        d
    }
}

impl Session {
    /// A session on a document, with nothing selected and nothing to undo.
    pub fn new(document: Document, settings: &Settings, copy_on_save: bool) -> (r: Session)
        ensures
            r@ == (SessionView {
                document: document@,
                history: HistoryView { undo: Seq::empty(), redo: Seq::empty() },
                dirty: false,
                tool: Tool::Select,
                selected: None,
                pending: None,
                style: crate::editor::style::initial_style(settings.arrow_shadow),
                editing: None,
                copy_on_save,
                last_saved: None,
                close_prompt: false,
            }),
    {
        Session {
            document,
            history: History::new(),
            dirty: false,
            tool: Tool::Select,
            selected: None,
            pending: None,
            style: ToolStyle::from_settings(settings),
            editing: None,
            copy_on_save,
            last_saved: None,
            close_prompt: false,
        }
    }

    /// Applies a command through the history.
    pub fn execute_command(&mut self, cmd: Command)
        ensures
            final(self)@ == executed(old(self)@, cmd@),
    {
        self.history.push(cmd, &mut self.document);
        self.dirty = true;
    }

    /// Takes one step back.
    pub fn do_undo(&mut self)
        ensures
            final(self)@ == undone(old(self)@),
    {
        if self.history.undo(&mut self.document) {
            self.dirty = true;
        }
    }

    /// Takes one step forward.
    pub fn do_redo(&mut self)
        ensures
            final(self)@ == redone(old(self)@),
    {
        if self.history.redo(&mut self.document) {
            self.dirty = true;
        }
    }

    /// A copy of the annotation with this identity.
    pub fn find_node(&self, id: NodeId) -> (r: Option<AnnotationNode>)
        ensures
            crate::editor::commands::node_view(r) == node_with(self@.document, id),
            r matches Some(n) ==> n@.id() == id,
    {
        proof {
            crate::editor::document::lemma_position_of(self@.document.annotations, id);
        }
        match find_position(&self.document.annotations, id) {
            Some(i) => {
                assert(self@.document.annotations[i as int] == self.document.annotations@[i as int]@);
                Some(self.document.annotations[i].clone())
            },
            None => None,
        }
    }

    /// Replaces an annotation past the history.
    fn put_node(&mut self, id: NodeId, n: AnnotationNode)
        ensures
            final(self)@ == (SessionView {
                document: replaced(old(self)@.document, id, n@),
                ..old(self)@
            }),
    {
        proof {
            crate::editor::document::lemma_position_of(self@.document.annotations, id);
        }
        match find_position(&self.document.annotations, id) {
            Some(i) => {
                let ghost before = self.document.annotations@;
                let ghost v = n@;
                self.document.annotations.set(i, n);
                assert(crate::editor::document::node_views(self.document.annotations@)
                    =~= crate::editor::document::node_views(before).update(i as int, v));
            },
            None => {},
        }
    }

    /// Removes the selected annotation.
    pub fn delete_selected(&mut self)
        ensures
            final(self)@ == deleted(old(self)@),
    {
        match self.selected {
            Some(id) => {
                self.execute_command(Command::Remove(RemoveAnnotation::new(id)));
                self.selected = None;
            },
            None => {},
        }
    }
}

/// The session after Delete.
pub open spec fn deleted(s: SessionView) -> SessionView {
    match s.selected {
        Some(id) => SessionView { selected: None, ..executed(s, removing(id)) },
        None => s,
    }
}

// ---------------------------------------------------------------------------
// Keys
// ---------------------------------------------------------------------------

/// The session after a key press. While a text box is edited, only Escape counts,
/// and ends that as leaving the text field does.
pub open spec fn after_key(s: SessionView, key: PressedKey, held: Held) -> SessionView {
    if s.editing is Some {
        if key == PressedKey::Named(KeyCode::Escape) {
            after_blur(s)
        } else {
            s
        }
    } else {
        match key {
            PressedKey::Named(KeyCode::Delete) => deleted(s),
            PressedKey::Named(KeyCode::Escape) => SessionView { selected: None, ..s },
            PressedKey::Character(t) => {
                let l = crate::text::lower(t@);
                if !held.ctrl {
                    s
                } else if l == "z"@ {
                    if held.shift {
                        redone(s)
                    } else {
                        undone(s)
                    }
                } else if l == "y"@ {
                    redone(s)
                } else {
                    s
                }
            },
            _ => s,
        }
    }
}

/// Whether a key press asks for saving.
pub open spec fn asks_save(s: SessionView, key: PressedKey, held: Held) -> bool {
    &&& s.editing is None
    &&& held.ctrl
    &&& key matches PressedKey::Character(t) && crate::text::lower(t@) == "s"@
}

impl Session {
    /// A key press outside of any input field. The result says whether the
    /// document is to be saved.
    pub fn global_keydown(&mut self, key: &PressedKey, held: Held) -> (save: bool)
        ensures
            final(self)@ == after_key(old(self)@, *key, held),
            save == asks_save(old(self)@, *key, held),
    {
        if self.editing.is_some() {
            match key {
                PressedKey::Named(KeyCode::Escape) => {
                    self.blur_text();
                },
                _ => {},
            }
            return false;
        }
        match key {
            PressedKey::Named(KeyCode::Delete) => {
                self.delete_selected();
            },
            PressedKey::Named(KeyCode::Escape) => {
                self.selected = None;
            },
            PressedKey::Character(t) => {
                proof {
                    reveal_strlit("z");
                    reveal_strlit("y");
                    reveal_strlit("s");
                    assert("z"@[0] != "y"@[0]);
                    assert("s"@[0] != "y"@[0]);
                    assert("z"@[0] != "s"@[0]);
                }
                let chars = to_chars(t.as_str());
                let l = to_lower(chars.as_slice());
                if held.ctrl {
                    if is_text(l.as_slice(), "z") {
                        if held.shift {
                            self.do_redo();
                        } else {
                            self.do_undo();
                        }
                    } else if is_text(l.as_slice(), "y") {
                        self.do_redo();
                    } else if is_text(l.as_slice(), "s") {
                        return true;
                    }
                }
            },
            _ => {},
        }
        false
    }

    /// The tool bar: every tool but Select drops the selection.
    pub fn pick_tool(&mut self, tool: Tool)
        ensures
            final(self)@ == (SessionView {
                tool,
                selected: if tool == Tool::Select {
                    old(self)@.selected
                } else {
                    None
                },
                ..old(self)@
            }),
    {
        self.tool = tool;
        if tool != Tool::Select {
            self.selected = None;
        }
    }
}

// ---------------------------------------------------------------------------
// Drawing
// ---------------------------------------------------------------------------

/// Whether an annotation is of the kind that a tool is named after.
pub open spec fn is_made_by(tool: Tool, n: NodeView) -> bool {
    match n {
        NodeView::Arrow { .. } => tool == Tool::Arrow,
        NodeView::Text { .. } => tool == Tool::Text,
        NodeView::Callout { .. } => tool == Tool::Callout,
        NodeView::Shape { shape: ShapeKind::Rect, .. } => tool == Tool::Rect,
        NodeView::Shape { shape: ShapeKind::Ellipse, .. } => tool == Tool::Ellipse,
        NodeView::Step { .. } => tool == Tool::Step,
        NodeView::Magnify { .. } => tool == Tool::Magnify,
        NodeView::Blur { .. } => tool == Tool::Blur,
        NodeView::CaptureInfo { .. } => tool == Tool::CaptureInfo,
        NodeView::Stamp { .. } => false,
    }
}

/// The annotation that a drag makes. `target` is where a loupe shows its picture,
/// `tail` where a balloon's tail ends. The tools that work by a click, and Select,
/// make none.
pub open spec fn drawn(
    tool: Tool,
    start: Point,
    end: Point,
    style: ToolStyleView,
    target: Bounds,
    tail: Point,
    id: NodeId,
) -> Option<NodeView> {
    let rect = Bounds::spanned(start, end);
    match tool {
        Tool::Arrow => Some(
            NodeView::Arrow {
                id,
                start,
                end,
                color: style.arrow.color,
                thickness: style.arrow.thickness,
                shadow: style.arrow.shadow,
                line_style: style.arrow.line_style,
                head_style: style.arrow.head_style,
                control: None,
            },
        ),
        Tool::Text => Some(
            NodeView::Text {
                id,
                rect,
                text: Seq::empty(),
                color: style.text.color,
                size_px: style.text.size,
                frosted: style.text.frosted,
                shadow: style.text.shadow,
                align: style.text.align,
                list: style.text.list,
            },
        ),
        Tool::Rect => Some(
            NodeView::Shape {
                id,
                shape: ShapeKind::Rect,
                rect,
                stroke: style.shape.stroke,
                stroke_width: style.shape.stroke_width,
                fill: style.shape.fill,
            },
        ),
        Tool::Ellipse => Some(
            NodeView::Shape {
                id,
                shape: ShapeKind::Ellipse,
                rect,
                stroke: style.shape.stroke,
                stroke_width: style.shape.stroke_width,
                fill: style.shape.fill,
            },
        ),
        Tool::Blur => Some(NodeView::Blur { id, rect, radius_px: style.blur_radius }),
        Tool::Magnify => Some(
            NodeView::Magnify {
                id,
                source_rect: rect,
                target_rect: target,
                border: style.magnify.border,
                border_width: style.magnify.border_width,
                circular: style.magnify.circular,
            },
        ),
        Tool::Callout => Some(
            NodeView::Callout {
                id,
                rect,
                tail,
                text: Seq::empty(),
                fill: style.callout.fill,
                stroke: style.callout.stroke,
                stroke_width: Px { bits: BITS_2 },
                text_color: style.callout.text_color,
                text_size: Px { bits: BITS_16 },
            },
        ),
        Tool::Step | Tool::CaptureInfo | Tool::Select => None,
    }
}

/// The annotation that a drag makes, with a fresh identity.
pub fn build_node_from_drag(
    tool: Tool,
    start: Point,
    end: Point,
    style: &ToolStyle,
    target: Bounds,
    tail: Point,
) -> (r: Option<AnnotationNode>)
    ensures
        match r {
            Some(n) => {
                &&& crate::editor::document::is_random_uuid(n@.id().value)
                &&& drawn(tool, start, end, style@, target, tail, n@.id()) == Some(n@)
            },
            None => tool == Tool::Step || tool == Tool::CaptureInfo || tool == Tool::Select,
        },
        r matches Some(n) ==> is_made_by(tool, n@),
{
    let rect = Bounds::between(start, end);
    match tool {
        Tool::Arrow => Some(
            crate::editor::tools::arrow::make(
                start,
                end,
                style.arrow.color,
                style.arrow.thickness,
                style.arrow.shadow,
                style.arrow.line_style,
                style.arrow.head_style,
            ),
        ),
        Tool::Text => Some(
            crate::editor::tools::text::make(
                rect,
                String::new(),
                style.text.color,
                style.text.size,
                style.text.frosted,
                style.text.shadow,
                style.text.align,
                style.text.list,
            ),
        ),
        Tool::Rect => Some(
            crate::editor::tools::shape::make(
                ShapeKind::Rect,
                rect,
                style.shape.stroke,
                style.shape.stroke_width,
                style.shape.fill,
            ),
        ),
        Tool::Ellipse => Some(
            crate::editor::tools::shape::make(
                ShapeKind::Ellipse,
                rect,
                style.shape.stroke,
                style.shape.stroke_width,
                style.shape.fill,
            ),
        ),
        Tool::Blur => Some(
            AnnotationNode::Blur { id: NodeId::random(), rect, radius_px: style.blur_radius },
        ),
        Tool::Magnify => Some(
            crate::editor::tools::magnify::make(
                target,
                rect,
                style.magnify.border,
                style.magnify.border_width,
                style.magnify.circular,
            ),
        ),
        Tool::Callout => Some(
            crate::editor::tools::callout::make(
                rect,
                tail,
                String::new(),
                style.callout.fill,
                style.callout.stroke,
                Px { bits: BITS_2 },
                style.callout.text_color,
                Px { bits: BITS_16 },
            ),
        ),
        Tool::Step | Tool::CaptureInfo | Tool::Select => None,
    }
}

/// Whether a drag is too short to draw anything: an arrow has to be long in one
/// direction, everything else in both. `narrow` and `flat` say that the drag is
/// short sideways and up or down.
pub open spec fn too_short(tool: Tool, narrow: bool, flat: bool) -> bool {
    if tool == Tool::Arrow {
        narrow && flat
    } else {
        narrow || flat
    }
}

// ---------------------------------------------------------------------------
// The pointer
// ---------------------------------------------------------------------------

/// The annotation that a click places: a banner or a step.
pub open spec fn clicked(
    tool: Tool,
    p: Point,
    style: ToolStyleView,
    id: NodeId,
) -> Option<NodeView> {
    match tool {
        Tool::CaptureInfo => Some(
            NodeView::CaptureInfo {
                id,
                position: style.info_position,
                fields: style.info_fields,
                style: banner_style(),
            },
        ),
        Tool::Step => Some(
            NodeView::Step {
                id,
                center: p,
                radius: style.step.radius,
                number: style.step.next_number,
                fill: style.step.fill,
                text_color: style.step.text_color,
            },
        ),
        _ => None,
    }
}

/// The step number that follows; the largest one stays.
pub open spec fn number_after(n: u32) -> u32 {
    if n == u32::MAX {
        n
    } else {
        (n + 1) as u32
    }
}

/// The session after the pointer went down with the Select tool on `hit`: a
/// handle of the selected annotation starts resizing it, anything else is
/// selected and starts moving, and nothing drops the selection.
pub open spec fn grabbing(
    s: SessionView,
    p: Point,
    hit: Option<NodeId>,
    near: NearHandles,
) -> SessionView {
    match hit {
        Some(id) => match node_with(s.document, id) {
            Some(n) => {
                let h = crate::editor::tools::selection::grabbed(n, near);
                if s.selected == Some(id) && h is Some {
                    SessionView {
                        pending: Some(
                            PendingView::Resize {
                                target: id,
                                start_node: n,
                                start_mouse: p,
                                cur_mouse: p,
                                handle: h->Some_0,
                            },
                        ),
                        ..s
                    }
                } else {
                    SessionView {
                        selected: Some(id),
                        pending: Some(
                            PendingView::Move {
                                target: id,
                                start_node: n,
                                start_mouse: p,
                                cur_mouse: p,
                            },
                        ),
                        ..s
                    }
                }
            },
            None => SessionView { selected: Some(id), ..s },
        },
        None => SessionView { selected: None, ..s },
    }
}

/// The session after the pointer went down, which first ends the edit of a text box
/// as leaving its text field does. `new_id` is the identity of what a click placed.
pub open spec fn after_down(
    s: SessionView,
    p: Point,
    curved: Seq<bool>,
    near: NearHandles,
    new_id: Option<NodeId>,
) -> SessionView {
    let s1 = after_blur(s);
    match s.tool {
        Tool::Select => grabbing(
            s1,
            p,
            crate::editor::tools::selection::topmost(s1.document.annotations, p, curved),
            near,
        ),
        Tool::CaptureInfo => executed(
            s1,
            adding(clicked(s.tool, p, s.style, new_id->Some_0)->Some_0),
        ),
        Tool::Step => {
            let s2 = executed(
                s1,
                adding(clicked(s.tool, p, s.style, new_id->Some_0)->Some_0),
            );
            SessionView {
                style: ToolStyleView {
                    step: crate::editor::style::StepStyle {
                        next_number: number_after(s.style.step.next_number),
                        ..s.style.step
                    },
                    ..s.style
                },
                ..s2
            }
        },
        _ => SessionView { pending: Some(PendingView::Rect { start: p, cur: p }), ..s1 },
    }
}

/// The look of a new banner.
pub open spec fn banner_style() -> CaptureInfoStyle {
    CaptureInfoStyle {
        fill: crate::px::Rgba { r: 20, g: 20, b: 20, a: 200 },
        text_color: crate::px::Rgba { r: 240, g: 240, b: 240, a: 255 },
        text_size: Px { bits: crate::px::BITS_14 },
        padding: Px { bits: crate::px::BITS_8 },
    }
}

impl Session {
    /// The pointer went down. `curved` says of each annotation whether the pointer
    /// is near it, and `near` which handles of the selected one. The result is the
    /// identity of what the click placed.
    pub fn canvas_pointerdown(&mut self, p: Point, curved: &[bool], near: NearHandles) -> (r:
        Option<NodeId>)
        requires
            curved@.len() == old(self)@.document.annotations.len(),
        ensures
            final(self)@ == after_down(old(self)@, p, curved@, near, r),
            r is Some <==> old(self)@.tool == Tool::CaptureInfo || old(self)@.tool == Tool::Step,
            r matches Some(id) ==> crate::editor::document::is_random_uuid(id.value),
    {
        self.blur_text();
        proof {
            lemma_blur_keeps_count(old(self)@);
        }
        match self.tool {
            Tool::Select => {
                match hit_test(&self.document.annotations, p, curved) {
                    Some(id) => {
                        let found = self.find_node(id);
                        match found {
                            Some(node) => {
                                let grabbed = handle_at(&node, near);
                                match grabbed {
                                    Some(handle) => {
                                        if self.selected == Some(id) {
                                            self.pending = Some(
                                                Pending::Resize {
                                                    target: id,
                                                    start_node: node,
                                                    start_mouse: p,
                                                    cur_mouse: p,
                                                    handle,
                                                },
                                            );
                                            return None;
                                        }
                                    },
                                    None => {},
                                }
                                self.selected = Some(id);
                                self.pending = Some(
                                    Pending::Move {
                                        target: id,
                                        start_node: node,
                                        start_mouse: p,
                                        cur_mouse: p,
                                    },
                                );
                            },
                            None => {
                                self.selected = Some(id);
                            },
                        }
                    },
                    None => {
                        self.selected = None;
                    },
                }
                None
            },
            Tool::CaptureInfo => {
                let node = crate::editor::tools::capture_info::make(
                    self.style.info_position,
                    copy_fields(&self.style.info_fields),
                    CaptureInfoStyle::default(),
                );
                let id = node.id();
                self.execute_command(Command::Add(AddAnnotation::new(node)));
                Some(id)
            },
            Tool::Step => {
                let n = self.style.step.next_number;
                let node = crate::editor::tools::step::make(
                    p,
                    self.style.step.radius,
                    n,
                    self.style.step.fill,
                    self.style.step.text_color,
                );
                let id = node.id();
                self.execute_command(Command::Add(AddAnnotation::new(node)));
                self.style.step.next_number = if n == u32::MAX {
                    n
                } else {
                    n + 1
                };
                Some(id)
            },
            _ => {
                self.pending = Some(Pending::Rect { start: p, cur: p });
                None
            },
        }
    }
}

/// The session after the pointer moved: a drag follows it, and what is being moved
/// or resized is shown as `live`.
pub open spec fn after_move(s: SessionView, p: Point, live: Option<NodeView>) -> SessionView {
    match s.pending {
        Some(PendingView::Rect { start, .. }) => SessionView {
            pending: Some(PendingView::Rect { start, cur: p }),
            ..s
        },
        Some(PendingView::Move { target, start_node, start_mouse, .. }) => SessionView {
            document: match live {
                Some(n) => replaced(s.document, target, n),
                None => s.document,
            },
            pending: Some(PendingView::Move { target, start_node, start_mouse, cur_mouse: p }),
            ..s
        },
        Some(PendingView::Resize { target, start_node, start_mouse, handle, .. }) => SessionView {
            document: match live {
                Some(n) => replaced(s.document, target, n),
                None => s.document,
            },
            pending: Some(
                PendingView::Resize { target, start_node, start_mouse, cur_mouse: p, handle },
            ),
            ..s
        },
        None => s,
    }
}

/// The session after the pointer went up. A drag that was too short draws
/// nothing; one that did not move the annotation puts it back. Otherwise the
/// change goes through the history as one command.
pub open spec fn after_up(
    s: SessionView,
    p: Point,
    narrow: bool,
    flat: bool,
    target: Bounds,
    tail: Point,
    after: Option<NodeView>,
    new_id: Option<NodeId>,
) -> SessionView {
    let s1 = SessionView { pending: None, ..s };
    match s.pending {
        Some(PendingView::Rect { start, .. }) => match new_id {
            Some(id) => {
                let n = drawn(s.tool, start, p, s.style, target, tail, id)->Some_0;
                let s2 = executed(s1, adding(n));
                if s.tool == Tool::Text {
                    SessionView { editing: Some((id, n)), selected: Some(id), ..s2 }
                } else {
                    s2
                }
            },
            None => s1,
        },
        Some(PendingView::Move { target: id, start_node, .. }) => dropped(
            s1,
            id,
            start_node,
            after,
        ),
        Some(PendingView::Resize { target: id, start_node, .. }) => dropped(
            s1,
            id,
            start_node,
            after,
        ),
        None => s1,
    }
}

/// The end of a move or resize: the annotation is put back as it was, and then
/// changed through the history, unless nothing moved.
pub open spec fn dropped(
    s: SessionView,
    id: NodeId,
    start_node: NodeView,
    after: Option<NodeView>,
) -> SessionView {
    let s1 = SessionView { document: replaced(s.document, id, start_node), ..s };
    match after {
        Some(n) => executed(s1, changing(start_node, n)),
        None => s1,
    }
}

/// From where to where an annotation is being dragged.
pub open spec fn dragged_way(s: SessionView) -> Option<(Point, Point)> {
    match s.pending {
        Some(PendingView::Move { start_mouse, cur_mouse, .. }) => Some((start_mouse, cur_mouse)),
        Some(PendingView::Resize { start_mouse, cur_mouse, .. }) => Some((start_mouse, cur_mouse)),
        _ => None,
    }
}

/// `live` is the annotation in hand, moved or resized from what it was when the drag
/// began. Nothing is in hand while a new annotation is drawn.
pub open spec fn is_dragged_node<F: Fn(Point) -> Point>(
    s: SessionView,
    shift: F,
    live: Option<NodeView>,
) -> bool {
    match s.pending {
        Some(PendingView::Move { start_node, .. }) => live is Some
            && crate::editor::tools::selection::is_translated(shift, start_node, live->Some_0),
        Some(PendingView::Resize { start_node, handle, .. }) => live is Some
            && crate::editor::tools::selection::is_resized(
            shift,
            handle,
            start_node,
            live->Some_0,
        ),
        _ => live is None,
    }
}

/// `after` is what the annotation in hand is changed to when it is let go: nothing if it
/// did not really move.
pub open spec fn is_committed_node<F: Fn(Point) -> Point>(
    s: SessionView,
    still: bool,
    shift: F,
    after: Option<NodeView>,
) -> bool {
    if still {
        after is None
    } else {
        is_dragged_node(s, shift, after)
    }
}

/// Whether letting go of the pointer draws an annotation.
pub open spec fn draws(s: SessionView, narrow: bool, flat: bool) -> bool {
    &&& s.pending is Some
    &&& s.pending->Some_0 is Rect
    &&& !too_short(s.tool, narrow, flat)
    &&& !(s.tool == Tool::Step || s.tool == Tool::CaptureInfo || s.tool == Tool::Select)
}

impl Session {
    /// From where to where the annotation in hand was dragged so far.
    pub fn drag_way(&self) -> (r: Option<(Point, Point)>)
        ensures
            r == dragged_way(self@),
    {
        match &self.pending {
            Some(Pending::Move { start_mouse, cur_mouse, .. }) => Some((*start_mouse, *cur_mouse)),
            Some(Pending::Resize { start_mouse, cur_mouse, .. }) => Some(
                (*start_mouse, *cur_mouse),
            ),
            _ => None,
        }
    }

    /// What the annotation in hand looks like after the drag.
    pub fn dragged_node<F: Fn(Point) -> Point>(&self, shift: &F) -> (r: Option<
        AnnotationNode,
    >)
        requires
            forall|q: Point| call_requires(*shift, (q,)),
        ensures
            is_dragged_node(self@, *shift, crate::editor::commands::node_view(r)),
    {
        match &self.pending {
            Some(Pending::Move { start_node, .. }) => Some(translate_node(start_node, shift)),
            Some(Pending::Resize { start_node, handle, .. }) => Some(
                resize_node(start_node, shift, *handle),
            ),
            _ => None,
        }
    }

    /// The pointer moved. `shift` moves a point by the way from where the drag began to
    /// `p`.
    pub fn canvas_pointermove<F: Fn(Point) -> Point>(&mut self, p: Point, shift: &F)
        requires
            forall|q: Point| call_requires(*shift, (q,)),
        ensures
            exists|live: Option<NodeView>| #[trigger]
                is_dragged_node(old(self)@, *shift, live) && final(self)@ == after_move(
                    old(self)@,
                    p,
                    live,
                ),
    {
        let live = self.dragged_node(shift);
        let ghost shown = crate::editor::commands::node_view(live);
        assert(is_dragged_node(old(self)@, *shift, shown));
        let pending = self.pending.take();
        match pending {
            Some(Pending::Rect { start, .. }) => {
                self.pending = Some(Pending::Rect { start, cur: p });
            },
            Some(Pending::Move { target, start_node, start_mouse, .. }) => {
                match live {
                    Some(n) => {
                        self.put_node(target, n);
                    },
                    None => {},
                }
                self.pending = Some(
                    Pending::Move { target, start_node, start_mouse, cur_mouse: p },
                );
            },
            Some(Pending::Resize { target, start_node, start_mouse, handle, .. }) => {
                match live {
                    Some(n) => {
                        self.put_node(target, n);
                    },
                    None => {},
                }
                self.pending = Some(
                    Pending::Resize { target, start_node, start_mouse, cur_mouse: p, handle },
                );
            },
            None => {},
        }
        assert(self@ == after_move(old(self)@, p, shown));
    }

    /// The pointer went up. `narrow` and `flat` say that a drag is short sideways and
    /// up or down, and `still` that an annotation in hand did not really move. `shift`
    /// moves a point by the way that it was dragged so far. The result is the identity of
    /// what was drawn.
    pub fn canvas_pointerup<F: Fn(Point) -> Point>(
        &mut self,
        p: Point,
        narrow: bool,
        flat: bool,
        target: Bounds,
        tail: Point,
        still: bool,
        shift: &F,
    ) -> (r: Option<NodeId>)
        requires
            forall|q: Point| call_requires(*shift, (q,)),
        ensures
            exists|after: Option<NodeView>| #[trigger]
                is_committed_node(old(self)@, still, *shift, after) && final(self)@
                    == after_up(old(self)@, p, narrow, flat, target, tail, after, r),
            r is Some <==> draws(old(self)@, narrow, flat),
            r matches Some(id) ==> crate::editor::document::is_random_uuid(id.value),
    {
        let after = if still {
            None
        } else {
            self.dragged_node(shift)
        };
        let ghost shown = crate::editor::commands::node_view(after);
        assert(is_committed_node(old(self)@, still, *shift, shown));
        let made = self.end_drag(p, narrow, flat, target, tail, after);
        assert(self@ == after_up(old(self)@, p, narrow, flat, target, tail, shown, made));
        made
    }

    /// Ends a drag. `after` is what an annotation in hand is changed to, if it is.
    fn end_drag(
        &mut self,
        p: Point,
        narrow: bool,
        flat: bool,
        target: Bounds,
        tail: Point,
        after: Option<AnnotationNode>,
    ) -> (r: Option<NodeId>)
        ensures
            final(self)@ == after_up(
                old(self)@,
                p,
                narrow,
                flat,
                target,
                tail,
                crate::editor::commands::node_view(after),
                r,
            ),
            r is Some <==> draws(old(self)@, narrow, flat),
            r matches Some(id) ==> crate::editor::document::is_random_uuid(id.value),
    {
        let pending = self.pending.take();
        match pending {
            Some(Pending::Rect { start, .. }) => {
                let short = if self.tool == Tool::Arrow {
                    narrow && flat
                } else {
                    narrow || flat
                };
                if short {
                    return None;
                }
                match build_node_from_drag(self.tool, start, p, &self.style, target, tail) {
                    Some(node) => {
                        let id = node.id();
                        let copy = node.clone();
                        self.execute_command(Command::Add(AddAnnotation::new(node)));
                        if self.tool == Tool::Text {
                            self.editing = Some(Editing { id, original: copy });
                            self.selected = Some(id);
                        }
                        Some(id)
                    },
                    None => None,
                }
            },
            Some(Pending::Move { target: id, start_node, .. }) => {
                self.drop_node(id, start_node, after);
                None
            },
            Some(Pending::Resize { target: id, start_node, .. }) => {
                self.drop_node(id, start_node, after);
                None
            },
            None => None,
        }
    }

    /// Ends a move or resize.
    fn drop_node(&mut self, id: NodeId, start_node: AnnotationNode, after: Option<AnnotationNode>)
        ensures
            final(self)@ == dropped(
                old(self)@,
                id,
                start_node@,
                crate::editor::commands::node_view(after),
            ),
    {
        self.put_node(id, start_node.clone());
        match after {
            Some(n) => {
                self.execute_command(Command::Update(UpdateAnnotation::new(start_node, n)));
            },
            None => {},
        }
    }
}

// ---------------------------------------------------------------------------
// Editing text
// ---------------------------------------------------------------------------

/// A text box with another text; anything else is unchanged.
pub open spec fn with_text(n: NodeView, t: Seq<char>) -> NodeView {
    match n {
        NodeView::Text { id, rect, text: _, color, size_px, frosted, shadow, align, list } =>
        NodeView::Text { id, rect, text: t, color, size_px, frosted, shadow, align, list },
        _ => n,
    }
}

/// The session after a double click on `hit`: a text box is selected and edited.
pub open spec fn after_double_click(s: SessionView, hit: Option<NodeId>) -> SessionView {
    match hit {
        Some(id) => match node_with(s.document, id) {
            Some(n) => if n is Text {
                SessionView { selected: Some(id), editing: Some((id, n)), ..s }
            } else {
                s
            },
            None => s,
        },
        None => s,
    }
}

/// The session after a text was typed: it is shown at once, past the history.
pub open spec fn after_typing(s: SessionView, t: Seq<char>) -> SessionView {
    match s.editing {
        Some((id, _)) => SessionView {
            document: match node_with(s.document, id) {
                Some(n) => replaced(s.document, id, with_text(n, t)),
                None => s.document,
            },
            dirty: true,
            ..s
        },
        None => s,
    }
}

/// The session after the text field lost the focus: if the text box is not what
/// it was when the edit began, it is put back and changed through the history, as
/// one command however much was typed.
pub open spec fn after_blur(s: SessionView) -> SessionView {
    let ended = SessionView { editing: None, ..s };
    match s.editing {
        Some((id, original)) => match node_with(s.document, id) {
            Some(after) => if after != original {
                executed(
                    SessionView { document: replaced(s.document, id, original), ..ended },
                    changing(original, after),
                )
            } else {
                ended
            },
            None => ended,
        },
        None => ended,
    }
}

/// Ending an edit adds and removes no annotation.
proof fn lemma_blur_keeps_count(s: SessionView)
    ensures
        after_blur(s).document.annotations.len() == s.document.annotations.len(),
{
    match s.editing {
        Some((id, original)) => {
            let put_back = replaced(s.document, id, original);
            crate::editor::document::lemma_position_of(s.document.annotations, id);
            crate::editor::document::lemma_position_of(put_back.annotations, original.id());
        },
        None => {},
    }
}

/// Whether two lists of bytes are the same.
fn same_bytes(a: &Vec<u8>, b: &Vec<u8>) -> (r: bool)
    ensures
        r == (a@ == b@),
{
    if a.len() != b.len() {
        return false;
    }
    let mut i: usize = 0;
    while i < a.len()
        invariant
            i <= a@.len(),
            a@.len() == b@.len(),
            forall|k: int| 0 <= k < i ==> a@[k] == b@[k],
        decreases a@.len() - i,
    {
        if a[i] != b[i] {
            assert(a@[i as int] != b@[i as int]);
            return false;
        }
        i += 1;
    }
    assert(a@ =~= b@);
    true
}

/// Whether two lists of fields are the same.
pub fn same_fields(a: &Vec<FieldKind>, b: &Vec<FieldKind>) -> (r: bool)
    ensures
        r == (a@ == b@),
{
    if a.len() != b.len() {
        return false;
    }
    let mut i: usize = 0;
    while i < a.len()
        invariant
            i <= a@.len(),
            a@.len() == b@.len(),
            forall|k: int| 0 <= k < i ==> a@[k] == b@[k],
        decreases a@.len() - i,
    {
        if a[i] != b[i] {
            assert(a@[i as int] != b@[i as int]);
            return false;
        }
        i += 1;
    }
    assert(a@ =~= b@);
    true
}

/// Whether two stamps have the same picture.
fn same_source(a: &StampSource, b: &StampSource) -> (r: bool)
    ensures
        r == (a@ == b@),
{
    match (a, b) {
        (StampSource::Builtin { name: x }, StampSource::Builtin { name: y }) => same_str(
            x.as_str(),
            y.as_str(),
        ),
        (StampSource::Inline { png: x }, StampSource::Inline { png: y }) => same_bytes(x, y),
        _ => false,
    }
}

/// Whether two annotations are the same in every respect.
pub fn same_node(a: &AnnotationNode, b: &AnnotationNode) -> (r: bool)
    ensures
        r == (a@ == b@),
{
    match (a, b) {
        (
            AnnotationNode::Arrow {
                id,
                start,
                end,
                color,
                thickness,
                shadow,
                line_style,
                head_style,
                control,
            },
            AnnotationNode::Arrow {
                id: id2,
                start: start2,
                end: end2,
                color: color2,
                thickness: thickness2,
                shadow: shadow2,
                line_style: line_style2,
                head_style: head_style2,
                control: control2,
            },
        ) => *id == *id2 && *start == *start2 && *end == *end2 && *color == *color2 && *thickness
            == *thickness2 && *shadow == *shadow2 && *line_style == *line_style2 && *head_style
            == *head_style2 && *control == *control2,
        (
            AnnotationNode::Text { id, rect, text, color, size_px, frosted, shadow, align, list },
            AnnotationNode::Text {
                id: id2,
                rect: rect2,
                text: text2,
                color: color2,
                size_px: size_px2,
                frosted: frosted2,
                shadow: shadow2,
                align: align2,
                list: list2,
            },
        ) => *id == *id2 && *rect == *rect2 && same_str(text.as_str(), text2.as_str()) && *color
            == *color2 && *size_px == *size_px2 && *frosted == *frosted2 && *shadow == *shadow2
            && *align == *align2 && *list == *list2,
        (
            AnnotationNode::Callout {
                id,
                rect,
                tail,
                text,
                fill,
                stroke,
                stroke_width,
                text_color,
                text_size,
            },
            AnnotationNode::Callout {
                id: id2,
                rect: rect2,
                tail: tail2,
                text: text2,
                fill: fill2,
                stroke: stroke2,
                stroke_width: stroke_width2,
                text_color: text_color2,
                text_size: text_size2,
            },
        ) => *id == *id2 && *rect == *rect2 && *tail == *tail2 && same_str(
            text.as_str(),
            text2.as_str(),
        ) && *fill == *fill2 && *stroke == *stroke2 && *stroke_width == *stroke_width2
            && *text_color == *text_color2 && *text_size == *text_size2,
        (
            AnnotationNode::Shape { id, shape, rect, stroke, stroke_width, fill },
            AnnotationNode::Shape {
                id: id2,
                shape: shape2,
                rect: rect2,
                stroke: stroke2,
                stroke_width: stroke_width2,
                fill: fill2,
            },
        ) => *id == *id2 && *shape == *shape2 && *rect == *rect2 && *stroke == *stroke2
            && *stroke_width == *stroke_width2 && *fill == *fill2,
        (
            AnnotationNode::Step { id, center, radius, number, fill, text_color },
            AnnotationNode::Step {
                id: id2,
                center: center2,
                radius: radius2,
                number: number2,
                fill: fill2,
                text_color: text_color2,
            },
        ) => *id == *id2 && *center == *center2 && *radius == *radius2 && *number == *number2
            && *fill == *fill2 && *text_color == *text_color2,
        (
            AnnotationNode::Stamp { id, source, rect },
            AnnotationNode::Stamp { id: id2, source: source2, rect: rect2 },
        ) => *id == *id2 && same_source(source, source2) && *rect == *rect2,
        (
            AnnotationNode::Magnify { id, source_rect, target_rect, border, border_width, circular },
            AnnotationNode::Magnify {
                id: id2,
                source_rect: source_rect2,
                target_rect: target_rect2,
                border: border2,
                border_width: border_width2,
                circular: circular2,
            },
        ) => *id == *id2 && *source_rect == *source_rect2 && *target_rect == *target_rect2
            && *border == *border2 && *border_width == *border_width2 && *circular == *circular2,
        (
            AnnotationNode::Blur { id, rect, radius_px },
            AnnotationNode::Blur { id: id2, rect: rect2, radius_px: radius_px2 },
        ) => *id == *id2 && *rect == *rect2 && *radius_px == *radius_px2,
        (
            AnnotationNode::CaptureInfo { id, position, fields, style },
            AnnotationNode::CaptureInfo {
                id: id2,
                position: position2,
                fields: fields2,
                style: style2,
            },
        ) => *id == *id2 && *position == *position2 && same_fields(fields, fields2) && *style
            == *style2,
        _ => false,
    }
}

impl Session {
    /// A double click opens a text box for editing.
    pub fn double_click(&mut self, p: Point, curved: &[bool])
        requires
            curved@.len() == old(self)@.document.annotations.len(),
        ensures
            final(self)@ == after_double_click(
                old(self)@,
                crate::editor::tools::selection::topmost(
                    old(self)@.document.annotations,
                    p,
                    curved@,
                ),
            ),
    {
        match hit_test(&self.document.annotations, p, curved) {
            Some(id) => {
                let found = self.find_node(id);
                match found {
                    Some(node) => {
                        let is_box = match &node {
                            AnnotationNode::Text { .. } => true,
                            _ => false,
                        };
                        if is_box {
                            self.selected = Some(id);
                            self.editing = Some(Editing { id, original: node });
                        }
                    },
                    None => {},
                }
            },
            None => {},
        }
    }

    /// The text field of the edited box changed.
    pub fn type_text(&mut self, text: String)
        ensures
            final(self)@ == after_typing(old(self)@, text@),
    {
        let target = match &self.editing {
            Some(e) => Some(e.id),
            None => None,
        };
        match target {
            Some(id) => {
                let found = self.find_node(id);
                match found {
                    Some(node) => {
                        let mut n = node;
                        match &mut n {
                            AnnotationNode::Text { text: t, .. } => {
                                *t = text;
                            },
                            _ => {},
                        }
                        self.put_node(id, n);
                    },
                    None => {},
                }
                self.dirty = true;
            },
            None => {},
        }
    }

    /// The text field lost the focus.
    pub fn blur_text(&mut self)
        ensures
            final(self)@ == after_blur(old(self)@),
    {
        let editing = self.editing.take();
        match editing {
            Some(e) => {
                let found = self.find_node(e.id);
                match found {
                    Some(after) => {
                        if !same_node(&after, &e.original) {
                            self.put_node(e.id, e.original.clone());
                            self.execute_command(
                                Command::Update(UpdateAnnotation::new(e.original, after)),
                            );
                        }
                    },
                    None => {},
                }
            },
            None => {},
        }
    }
}

// ---------------------------------------------------------------------------
// What lies over the annotations
// ---------------------------------------------------------------------------

/// What is drawn round the selected annotation.
#[derive(Debug)]
pub enum Chrome {
    Nothing,
    /// A text field in place of the text box.
    TextField { rect: Bounds, text: String },
    /// An outline and eight handles.
    Handles { rect: Bounds },
}

/// What is drawn round the selected annotation, as plain values.
#[verifier::ext_equal]
pub enum ChromeView {
    Nothing,
    TextField { rect: Bounds, text: Seq<char> },
    Handles { rect: Bounds },
}

impl View for Chrome {
    type V = ChromeView;

    open spec fn view(&self) -> ChromeView {
        match *self {
            Chrome::Nothing => ChromeView::Nothing,
            Chrome::TextField { rect, text } => ChromeView::TextField { rect, text: text@ },
            Chrome::Handles { rect } => ChromeView::Handles { rect },
        }
    }
}

/// The box that the outline runs round: the one between the ends of an arrow, else
/// the annotation's own. `circle` is the box round a step marker's circle.
pub open spec fn outline_of(n: NodeView, circle: Bounds) -> Option<Bounds> {
    match n {
        NodeView::Arrow { start, end, .. } => Some(Bounds::spanned(start, end)),
        NodeView::Text { rect, .. } => Some(rect),
        NodeView::Shape { rect, .. } => Some(rect),
        NodeView::Blur { rect, .. } => Some(rect),
        NodeView::Callout { rect, .. } => Some(rect),
        NodeView::Stamp { rect, .. } => Some(rect),
        NodeView::Magnify { target_rect, .. } => Some(target_rect),
        NodeView::Step { .. } => Some(circle),
        NodeView::CaptureInfo { .. } => None,
    }
}

/// What is drawn round the selected annotation: a text field if its text is being
/// edited, else an outline with handles.
pub open spec fn chrome_of(s: SessionView, circle: Bounds) -> ChromeView {
    match s.selected {
        Some(id) => match node_with(s.document, id) {
            Some(n) => match outline_of(n, circle) {
                Some(rect) => match n {
                    NodeView::Text { text, .. } => if s.editing matches Some(e) && e.0 == id {
                        ChromeView::TextField { rect, text }
                    } else {
                        ChromeView::Handles { rect }
                    },
                    _ => ChromeView::Handles { rect },
                },
                None => ChromeView::Nothing,
            },
            None => ChromeView::Nothing,
        },
        None => ChromeView::Nothing,
    }
}

/// What is drawn while an annotation is dragged out.
#[derive(Debug, Clone, Copy, PartialEq, Eq, Structural)]
pub enum DragMark {
    Nothing,
    /// A line with round ends, not quite opaque.
    Line { start: Point, end: Point, color: Rgba, width: Px },
    /// A dashed ellipse in a box.
    Ellipse { rect: Bounds, color: Rgba, width: Px },
    /// A dashed box.
    Box { rect: Bounds, color: Rgba, width: Px },
}

/// What is drawn while an annotation is dragged out.
pub open spec fn drag_mark_of(s: SessionView) -> DragMark {
    match s.pending {
        Some(PendingView::Rect { start, cur }) => match s.tool {
            Tool::Arrow => DragMark::Line {
                start,
                end: cur,
                color: s.style.arrow.color,
                width: s.style.arrow.thickness,
            },
            Tool::Ellipse => DragMark::Ellipse {
                rect: Bounds::spanned(start, cur),
                color: s.style.shape.stroke,
                width: s.style.shape.stroke_width,
            },
            _ => DragMark::Box {
                rect: Bounds::spanned(start, cur),
                color: s.style.shape.stroke,
                width: Px { bits: BITS_1_5 },
            },
        },
        _ => DragMark::Nothing,
    }
}

impl Session {
    /// What is drawn round the selected annotation; `circle` is the box round a step
    /// marker's circle.
    pub fn render_selection(&self, circle: Bounds) -> (r: Chrome)
        ensures
            r@ == chrome_of(self@, circle),
    {
        match self.selected {
            Some(id) => {
                match self.find_node(id) {
                    Some(n) => {
                        match n {
                            AnnotationNode::Arrow { start, end, .. } => Chrome::Handles {
                                rect: Bounds::between(start, end),
                            },
                            AnnotationNode::Text { rect, text, .. } => {
                                let edited = match &self.editing {
                                    Some(e) => e.id == id,
                                    None => false,
                                };
                                if edited {
                                    Chrome::TextField { rect, text }
                                } else {
                                    Chrome::Handles { rect }
                                }
                            },
                            AnnotationNode::Shape { rect, .. } => Chrome::Handles { rect },
                            AnnotationNode::Blur { rect, .. } => Chrome::Handles { rect },
                            AnnotationNode::Callout { rect, .. } => Chrome::Handles { rect },
                            AnnotationNode::Stamp { rect, .. } => Chrome::Handles { rect },
                            AnnotationNode::Magnify { target_rect, .. } => Chrome::Handles {
                                rect: target_rect,
                            },
                            AnnotationNode::Step { .. } => Chrome::Handles { rect: circle },
                            AnnotationNode::CaptureInfo { .. } => Chrome::Nothing,
                        }
                    },
                    None => Chrome::Nothing,
                }
            },
            None => Chrome::Nothing,
        }
    }

    /// What is drawn while an annotation is dragged out.
    pub fn render_pending(&self) -> (r: DragMark)
        ensures
            r == drag_mark_of(self@),
    {
        match &self.pending {
            Some(Pending::Rect { start, cur }) => match self.tool {
                Tool::Arrow => DragMark::Line {
                    start: *start,
                    end: *cur,
                    color: self.style.arrow.color,
                    width: self.style.arrow.thickness,
                },
                Tool::Ellipse => DragMark::Ellipse {
                    rect: Bounds::between(*start, *cur),
                    color: self.style.shape.stroke,
                    width: self.style.shape.stroke_width,
                },
                _ => DragMark::Box {
                    rect: Bounds::between(*start, *cur),
                    color: self.style.shape.stroke,
                    width: Px { bits: BITS_1_5 },
                },
            },
            _ => DragMark::Nothing,
        }
    }
}

// ---------------------------------------------------------------------------
// Saving and closing
// ---------------------------------------------------------------------------

/// What Close does.
#[derive(Debug, Clone, Copy, PartialEq, Eq, Structural)]
pub enum CloseAction {
    /// Close the window.
    Close,
    /// Ask about unsaved changes first.
    Ask,
}

impl Session {
    /// The document was saved: the picture is at `path`.
    pub fn saved(&mut self, path: String)
        ensures
            final(self)@ == (SessionView {
                dirty: false,
                last_saved: Some(path@),
                ..old(self)@
            }),
    {
        self.dirty = false;
        self.last_saved = Some(path);
    }

    /// The close button: unsaved changes are asked about.
    pub fn request_close(&mut self) -> (r: CloseAction)
        ensures
            old(self).dirty ==> r == CloseAction::Ask && final(self)@ == (SessionView {
                close_prompt: true,
                ..old(self)@
            }),
            !old(self).dirty ==> r == CloseAction::Close && final(self)@ == old(self)@,
    {
        if self.dirty {
            self.close_prompt = true;
            CloseAction::Ask
        } else {
            CloseAction::Close
        }
    }

    /// Cancel in the question about unsaved changes.
    pub fn cancel_close(&mut self)
        ensures
            final(self)@ == (SessionView { close_prompt: false, ..old(self)@ }),
    {
        self.close_prompt = false;
    }

    /// Save and close: with the outcome of saving, whether the window closes.
    pub fn save_and_close(&mut self, saved: bool) -> (close: bool)
        ensures
            close == saved,
            saved ==> final(self)@ == (SessionView { dirty: false, ..old(self)@ }),
            !saved ==> final(self)@ == old(self)@,
    {
        if saved {
            self.dirty = false;
        }
        saved
    }

    /// The path of the saved picture, while it is up to date.
    pub fn shown_path(&self) -> (r: Option<String>)
        ensures
            crate::text::optional_text(r) == (if self.dirty {
                None
            } else {
                self@.last_saved
            }),
    {
        if self.dirty {
            None
        } else {
            crate::text::copy_optional(&self.last_saved)
        }
    }

    /// The line under the title.
    pub fn summary(&self) -> (r: String)
        ensures
            r@ == crate::text::decimal(self@.document.base_width as nat) + " \u{d7} "@
                + crate::text::decimal(self@.document.base_height as nat) + " \u{2022} "@
                + crate::text::decimal(self@.document.annotations.len()) + " annotation(s)"@,
    {
        let mut out = decimal_chars(self.document.base_width as u64);
        push_text(&mut out, " \u{d7} ");
        let h = decimal_chars(self.document.base_height as u64);
        push_chars(&mut out, h.as_slice());
        push_text(&mut out, " \u{2022} ");
        let n = decimal_chars(self.document.annotations.len() as u64);
        push_chars(&mut out, n.as_slice());
        push_text(&mut out, " annotation(s)");
        from_chars(out.as_slice())
    }

    /// The size in the status line.
    pub fn dimensions(&self) -> (r: String)
        ensures
            r@ == crate::text::decimal(self@.document.base_width as nat) + " \u{d7} "@
                + crate::text::decimal(self@.document.base_height as nat),
    {
        let mut out = decimal_chars(self.document.base_width as u64);
        push_text(&mut out, " \u{d7} ");
        let h = decimal_chars(self.document.base_height as u64);
        push_chars(&mut out, h.as_slice());
        from_chars(out.as_slice())
    }
}

/// The "Copied!" note in the status line. Each copy starts a new generation, so
/// that the timer of an earlier one does not cut a later one short.
#[derive(Debug, Clone, Copy, PartialEq, Eq, Structural)]
pub struct CopyFlash {
    pub generation: u64,
    pub active: bool,
}

impl CopyFlash {
    /// No note is shown.
    pub fn new() -> (r: CopyFlash)
        ensures
            r == (CopyFlash { generation: 0, active: false }),
    {
        CopyFlash { generation: 0, active: false }
    }

    /// The path was copied. The result is for the timer that ends the note.
    pub fn copied(&mut self) -> (r: u64)
        requires
            old(self).generation < u64::MAX,
        ensures
            r == old(self).generation + 1,
            *final(self) == (CopyFlash { generation: r, active: true }),
    {
        self.generation = self.generation + 1;
        self.active = true;
        self.generation
    }

    /// A timer ran out: it ends the note of its own generation only.
    pub fn expire(&mut self, generation: u64)
        ensures
            *final(self) == (CopyFlash {
                active: old(self).active && old(self).generation != generation,
                ..*old(self)
            }),
    {
        if self.generation == generation {
            self.active = false;
        }
    }
}

/// The inner size of the editor window along one side: the picture and the
/// `panel` beside it, between the bounds.
pub open spec fn window_extent(picture: int, panel: int, least: int, most: int) -> int {
    let want = picture + panel;
    if want < least {
        least
    } else if want > most {
        most
    } else {
        want
    }
}

/// The inner size of the editor window: room for the panels round the picture,
/// at least 1100 by 720 and at most 1700 by 1100.
pub fn window_size(doc: &Document) -> (r: (u32, u32))
    ensures
        r.0 == window_extent(doc@.base_width as int, 320, 1100, 1700),
        r.1 == window_extent(doc@.base_height as int, 140, 720, 1100),
{
    let w: u64 = doc.base_width as u64 + 320;
    let h: u64 = doc.base_height as u64 + 140;
    let width: u32 = if w < 1100 {
        1100
    } else if w > 1700 {
        1700
    } else {
        w as u32
    };
    let height: u32 = if h < 720 {
        720
    } else if h > 1100 {
        1100
    } else {
        h as u32
    };
    (width, height)
}

// ---------------------------------------------------------------------------
// Laws
// ---------------------------------------------------------------------------

/// Putting an annotation back undoes any replacement of it.
pub(crate) proof fn lemma_put_back(d: DocumentView, id: NodeId, live: NodeView)
    requires
        live.id() == id,
        node_with(d, id) is Some,
    ensures
        replaced(replaced(d, id, live), id, node_with(d, id)->Some_0) == d,
        node_with(replaced(d, id, live), id) == Some(live),
{
    let s = d.annotations;
    let p = crate::editor::document::position_of(s, id);
    crate::editor::document::lemma_position_of(s, id);
    let t = s.update(p, live);
    assert forall|k: int| 0 <= k < p implies (#[trigger] t[k]).id() != id by {
        assert(t[k] == s[k]);
    }
    crate::editor::document::lemma_position_is(t, id, p);
    assert(t.update(p, s[p]) =~= s);
    assert(replaced(replaced(d, id, live), id, s[p]) =~= d);
}

/// A move or resize is one step of the history: whatever was shown while it
/// lasted, one undo brings back the document as it was when it began, and a redo
/// brings the result again. If nothing moved, nothing is left of it.
pub proof fn law_drag_is_one_step(
    s: SessionView,
    id: NodeId,
    start_node: NodeView,
    live: NodeView,
    after: NodeView,
)
    requires
        node_with(s.document, id) == Some(start_node),
        live.id() == id,
        after.id() == id,
    ensures
        ({
            let dragging = SessionView { document: replaced(s.document, id, live), ..s };
            let done = dropped(dragging, id, start_node, Some(after));
            &&& done.document == replaced(s.document, id, after)
            &&& undone(done).document == s.document
            &&& redone(undone(done)).document == done.document
            &&& dropped(dragging, id, start_node, None).document == s.document
        }),
{
    let d = s.document;
    crate::editor::document::lemma_position_of(d.annotations, id);
    lemma_put_back(d, id, live);
    lemma_put_back(d, id, after);
    let dragging = SessionView { document: replaced(d, id, live), ..s };
    let c = changing(start_node, after);
    let p = crate::editor::document::position_of(d.annotations, id);
    assert(start_node.id() == id);
    let (c1, d1) = crate::editor::commands::applied(c, d);
    assert(d1 =~= replaced(d, id, after));
    let done = dropped(dragging, id, start_node, Some(after));
    let undo = s.history.undo.push(c1);
    assert(done.history.undo.last() == c1) by {
        assert(undo.last() == c1);
        let kept = crate::editor::commands::newest(
            undo,
            crate::editor::commands::HISTORY_LIMIT as int,
        );
        assert(kept.last() == undo.last());
    }
    let back = crate::editor::commands::reverted(c1, d1);
    assert(back.1 =~= d);
    assert(undone(done).history.redo.last() == back.0);
    let again = crate::editor::commands::applied(back.0, d);
    assert(again.1 =~= d1);
}

/// Typing is one step of the history: after the field lost the focus, one undo
/// brings back the text as it was when the edit began.
pub proof fn law_typing_is_one_step(s: SessionView, id: NodeId, original: NodeView, t: Seq<char>)
    requires
        node_with(s.document, id) == Some(original),
        s.editing == Some((id, original)),
        original is Text,
        original->Text_text != t,
    ensures
        ({
            let done = after_blur(after_typing(s, t));
            &&& node_with(done.document, id) == Some(with_text(original, t))
            &&& undone(done).document == s.document
            &&& done.editing is None
        }),
{
    let live = with_text(original, t);
    crate::editor::document::lemma_position_of(s.document.annotations, id);
    lemma_put_back(s.document, id, live);
    let typed = after_typing(s, t);
    assert(live != original);
    let base = SessionView { editing: None, dirty: true, ..s };
    law_drag_is_one_step(base, id, original, live, live);
    let dragging = SessionView { document: replaced(s.document, id, live), ..base };
    assert(after_blur(typed) == dropped(dragging, id, original, Some(live)));
}

/// Opening and closing a text box without typing leaves no trace in the history.
pub proof fn law_edit_without_typing(s: SessionView, hit: Option<NodeId>)
    ensures
        ({
            let done = after_blur(after_double_click(SessionView { editing: None, ..s }, hit));
            &&& done.document == s.document
            &&& done.history == s.history
            &&& done.dirty == s.dirty
        }),
{
}

/// Typing and leaving the text field gives no annotation another identity.
proof fn lemma_blur_keeps_ids(s: SessionView, id: NodeId, original: NodeView, t: Seq<char>)
    requires
        node_with(s.document, id) == Some(original),
        s.editing == Some((id, original)),
        original is Text,
        original->Text_text != t,
    ensures
        ({
            let d = after_blur(after_typing(s, t)).document;
            &&& after_blur(after_typing(s, t)).history.undo.len() > 0
            &&& forall|other: NodeId|
                crate::editor::document::has_id(d.annotations, other)
                    ==> #[trigger] crate::editor::document::has_id(s.document.annotations, other)
        }),
{
    let live = with_text(original, t);
    crate::editor::document::lemma_position_of(s.document.annotations, id);
    lemma_put_back(s.document, id, live);
    assert(live != original);
    let d = after_blur(after_typing(s, t)).document;
    let base = SessionView { editing: None, dirty: true, ..s };
    law_drag_is_one_step(base, id, original, live, live);
    let dragging = SessionView { document: replaced(s.document, id, live), ..base };
    assert(after_blur(after_typing(s, t)) == dropped(dragging, id, original, Some(live)));
    assert(d == replaced(s.document, id, live));
    let q = crate::editor::document::position_of(s.document.annotations, id);
    assert forall|other: NodeId|
        crate::editor::document::has_id(
            d.annotations,
            other,
        ) implies #[trigger] crate::editor::document::has_id(s.document.annotations, other) by {
        let k = choose|k: int|
            0 <= k < d.annotations.len() && (#[trigger] d.annotations[k]).id() == other;
        assert(s.document.annotations[k].id() == other);
    }
}

/// A click or Escape ends typing as one step of the history, as leaving the text field
/// does: the text stays, and one undo brings back the text as it was when the edit
/// began. Where the click itself placed something, that is the first undo and the
/// typing the second.
pub proof fn law_click_or_escape_ends_typing(
    s: SessionView,
    id: NodeId,
    original: NodeView,
    t: Seq<char>,
    p: Point,
    curved: Seq<bool>,
    near: NearHandles,
    new_id: Option<NodeId>,
)
    requires
        node_with(s.document, id) == Some(original),
        s.editing == Some((id, original)),
        original is Text,
        original->Text_text != t,
        s.tool == Tool::CaptureInfo || s.tool == Tool::Step ==> {
            &&& new_id is Some
            &&& !crate::editor::document::has_id(s.document.annotations, new_id->Some_0)
        },
    ensures
        ({
            let typed = after_typing(s, t);
            let escaped = after_key(
                typed,
                PressedKey::Named(KeyCode::Escape),
                Held { ctrl: false, shift: false, alt: false, meta: false },
            );
            let clicked_on = after_down(typed, p, curved, near, new_id);
            let placed = s.tool == Tool::CaptureInfo || s.tool == Tool::Step;
            &&& escaped.editing is None
            &&& node_with(escaped.document, id) == Some(with_text(original, t))
            &&& undone(escaped).document == s.document
            &&& clicked_on.editing is None
            &&& !placed ==> {
                &&& node_with(clicked_on.document, id) == Some(with_text(original, t))
                &&& undone(clicked_on).document == s.document
            }
            &&& placed ==> {
                &&& node_with(undone(clicked_on).document, id) == Some(with_text(original, t))
                &&& undone(undone(clicked_on)).document == s.document
            }
        }),
{
    law_typing_is_one_step(s, id, original, t);
    let typed = after_typing(s, t);
    let ended = after_blur(typed);
    if s.tool == Tool::CaptureInfo || s.tool == Tool::Step {
        let node = clicked(s.tool, p, s.style, new_id->Some_0)->Some_0;
        let c = adding(node);
        let a = s.document.annotations;
        let b = ended.document.annotations;
        lemma_blur_keeps_ids(s, id, original, t);
        assert(crate::editor::commands::well_aimed(c, ended.document));
        crate::editor::commands::law_undo_redo_after_push(ended.history, c, ended.document);
        let back = undone(after_down(typed, p, curved, near, new_id));
        assert(back.document == ended.document);
        assert(back.history.undo.last() == ended.history.undo.last());
        assert(undone(back).document == undone(ended).document);
    }
}

/// What a drag draws is of the kind that the tool is named after: the Rect tool makes
/// rectangles and the Ellipse tool ellipses. So two tools never draw the same
/// annotation, whatever the drag and the style.
pub proof fn law_tools_draw_their_own_kind(
    tool: Tool,
    other: Tool,
    start: Point,
    end: Point,
    style: ToolStyleView,
    target: Bounds,
    tail: Point,
    id: NodeId,
)
    ensures
        drawn(tool, start, end, style, target, tail, id) matches Some(n) ==> is_made_by(tool, n)
            && n.id() == id,
        drawn(tool, start, end, style, target, tail, id) is None <==> tool == Tool::Step || tool
            == Tool::CaptureInfo || tool == Tool::Select,
        tool != other && drawn(tool, start, end, style, target, tail, id) is Some ==> drawn(
            tool,
            start,
            end,
            style,
            target,
            tail,
            id,
        ) != drawn(other, start, end, style, target, tail, id),
{
}

/// Where a drag draws: an arrow runs from where the drag began to where it ended. The box
/// of anything else holds both ends and reaches no further, so it does not matter in
/// which direction the drag went; that of a loupe is the region that it shows.
pub proof fn law_drawn_where_dragged(
    tool: Tool,
    start: Point,
    end: Point,
    style: ToolStyleView,
    target: Bounds,
    tail: Point,
    id: NodeId,
)
    requires
        !start.x.is_nan() && !start.y.is_nan() && !end.x.is_nan() && !end.y.is_nan(),
    ensures
        match drawn(tool, start, end, style, target, tail, id) {
            Some(NodeView::Arrow { start: s, end: e, control, .. }) => s == start && e == end
                && control is None,
            Some(NodeView::Text { rect, text, .. }) => is_box_between(start, end, rect) && text.len()
                == 0,
            Some(NodeView::Shape { rect, .. }) => is_box_between(start, end, rect),
            Some(NodeView::Blur { rect, .. }) => is_box_between(start, end, rect),
            Some(NodeView::Callout { rect, tail: t, text, .. }) => is_box_between(start, end, rect)
                && t == tail && text.len() == 0,
            Some(NodeView::Magnify { source_rect, target_rect, .. }) => is_box_between(
                start,
                end,
                source_rect,
            ) && target_rect == target,
            _ => true,
        },
{
}

/// A box has two points on its edges and inside its corners, and nothing beyond them.
pub open spec fn is_box_between(a: Point, b: Point, r: Bounds) -> bool {
    &&& r.min_x == a.x || r.min_x == b.x
    &&& r.max_x == a.x || r.max_x == b.x
    &&& r.min_y == a.y || r.min_y == b.y
    &&& r.max_y == a.y || r.max_y == b.y
    &&& r.min_x.rank() <= a.x.rank() <= r.max_x.rank()
    &&& r.min_x.rank() <= b.x.rank() <= r.max_x.rank()
    &&& r.min_y.rank() <= a.y.rank() <= r.max_y.rank()
    &&& r.min_y.rank() <= b.y.rank() <= r.max_y.rank()
}

/// A new annotation takes every part of its look from the style of its tool; a
/// balloon's line is two pixels wide and its text sixteen high.
pub proof fn law_drawn_in_the_style_of_the_tool(
    tool: Tool,
    start: Point,
    end: Point,
    style: ToolStyleView,
    target: Bounds,
    tail: Point,
    id: NodeId,
)
    ensures
        match drawn(tool, start, end, style, target, tail, id) {
            Some(NodeView::Arrow { color, thickness, shadow, line_style, head_style, .. }) => {
                style.arrow == (crate::editor::style::ArrowStyle {
                    color,
                    thickness,
                    shadow,
                    line_style,
                    head_style,
                })
            },
            Some(NodeView::Text { color, size_px, frosted, shadow, align, list, .. }) => {
                style.text == (crate::editor::style::TextStyle {
                    color,
                    size: size_px,
                    align,
                    list,
                    frosted,
                    shadow,
                })
            },
            Some(NodeView::Shape { stroke, stroke_width, fill, .. }) => style.shape == (
            crate::editor::style::ShapeStyle { stroke, stroke_width, fill }),
            Some(NodeView::Blur { radius_px, .. }) => radius_px == style.blur_radius,
            Some(NodeView::Magnify { border, border_width, circular, .. }) => style.magnify == (
            crate::editor::style::MagnifyStyle {
                circular,
                border,
                border_width,
                zoom: style.magnify.zoom,
            }),
            Some(NodeView::Callout { fill, stroke, text_color, stroke_width, text_size, .. }) => {
                &&& style.callout == (crate::editor::style::CalloutStyle {
                    fill,
                    stroke,
                    text_color,
                })
                &&& crate::px::is_pattern_of(stroke_width.bits, 4, 1, 4)
                &&& crate::px::is_pattern_of(text_size.bits, 32, 4, 32)
            },
            _ => true,
        },
{
}

/// A click sets a marker round the point, with the number that is next, or a
/// banner with the chosen corner and fields; other tools set nothing by a click.
pub proof fn law_click_places_markers_and_banners(
    tool: Tool,
    p: Point,
    style: ToolStyleView,
    id: NodeId,
)
    ensures
        clicked(tool, p, style, id) is Some <==> tool == Tool::Step || tool == Tool::CaptureInfo,
        clicked(tool, p, style, id) matches Some(n) ==> is_made_by(tool, n) && n.id() == id,
        clicked(tool, p, style, id) matches Some(
            NodeView::Step { center, radius, number, fill, text_color, .. },
        ) ==> center == p && style.step == (crate::editor::style::StepStyle {
            fill,
            text_color,
            radius,
            next_number: number,
        }),
        clicked(tool, p, style, id) matches Some(
            NodeView::CaptureInfo { position, fields, style: look, .. },
        ) ==> position == style.info_position && fields == style.info_fields && look.fill.a < 255
            && look.text_color.a == 255 && look.text_color.r > look.fill.r && look.text_color.g
            > look.fill.g && look.text_color.b > look.fill.b && crate::px::is_pattern_of(
            look.text_size.bits,
            28,
            3,
            16,
        ) && crate::px::is_pattern_of(look.padding.bits, 16, 3, 16),
        number_after(style.step.next_number) > style.step.next_number || style.step.next_number
            == u32::MAX,
        number_after(style.step.next_number) <= style.step.next_number + 1,
        number_after(style.step.next_number) >= style.step.next_number,
{
}

/// An arrow is long enough if it is so in either direction; anything else has
/// to be so in both. What is too short is not drawn, and neither is what a
/// tool without dragging would draw.
pub proof fn law_short_drags_draw_nothing(s: SessionView, narrow: bool, flat: bool)
    ensures
        draws(s, narrow, flat) ==> s.pending is Some && !(narrow && flat),
        draws(s, narrow, flat) && (narrow || flat) ==> s.tool == Tool::Arrow,
        s.pending matches Some(PendingView::Rect { .. }) && s.tool == Tool::Arrow && !(narrow
            && flat) ==> draws(s, narrow, flat),
        s.pending matches Some(PendingView::Rect { .. }) && !(narrow || flat) && s.tool
            != Tool::Step && s.tool != Tool::CaptureInfo && s.tool != Tool::Select ==> draws(
            s,
            narrow,
            flat,
        ),
        s.tool == Tool::Step || s.tool == Tool::CaptureInfo || s.tool == Tool::Select ==> !draws(
            s,
            narrow,
            flat,
        ),
{
}

/// What keys do while no text is edited: Delete takes the selected annotation
/// away, Escape ends the selection, Ctrl with Z undoes and with Y, or with Shift
/// and Z, redoes; Ctrl with S asks for saving. While text is edited they do
/// nothing, but that Escape ends it.
pub proof fn law_keys_do_what_they_say(s: SessionView, key: PressedKey, held: Held, t: String)
    ensures
        s.editing is Some && key != PressedKey::Named(KeyCode::Escape) ==> after_key(s, key, held)
            == s,
        s.editing is Some ==> !asks_save(s, key, held),
        s.editing is None ==> after_key(s, PressedKey::Named(KeyCode::Escape), held) == (SessionView {
            selected: None,
            ..s
        }),
        s.editing is None && s.selected is None ==> after_key(
            s,
            PressedKey::Named(KeyCode::Delete),
            held,
        ) == s,
        s.editing is None ==> after_key(s, PressedKey::Named(KeyCode::Delete), held).selected is None,
        s.editing is None && !held.ctrl ==> after_key(s, PressedKey::Character(t), held) == s
            && !asks_save(s, PressedKey::Character(t), held),
        s.editing is None && held.ctrl && crate::text::lower(t@) == "z"@ ==> after_key(
            s,
            PressedKey::Character(t),
            held,
        ) == (if held.shift {
            redone(s)
        } else {
            undone(s)
        }),
        s.editing is None && held.ctrl && crate::text::lower(t@) == "y"@ ==> after_key(
            s,
            PressedKey::Character(t),
            held,
        ) == redone(s),
        s.editing is None && held.ctrl && crate::text::lower(t@) == "s"@ ==> asks_save(
            s,
            PressedKey::Character(t),
            held,
        ) && after_key(s, PressedKey::Character(t), held) == s,
        asks_save(s, key, held) ==> after_key(s, key, held) == s,
{
    reveal_strlit("z");
    reveal_strlit("y");
    reveal_strlit("s");
    assert("z"@[0] == 'z' && "y"@[0] == 'y' && "s"@[0] == 's');
}

/// A node is looked up by its id alone, and one put in its place is found there
/// under that id while every other node stays where it was.
pub proof fn law_nodes_are_found_by_id(d: DocumentView, id: NodeId, n: NodeView, i: int)
    requires
        0 <= i < d.annotations.len(),
    ensures
        node_with(d, id) is Some <==> crate::editor::document::has_id(d.annotations, id),
        node_with(d, id) matches Some(m) ==> m.id() == id && d.annotations.contains(m),
        replaced(d, id, n).annotations.len() == d.annotations.len(),
        d.annotations[i].id() != id ==> replaced(d, id, n).annotations[i] == d.annotations[i],
        n.id() == id && node_with(d, id) is Some ==> node_with(replaced(d, id, n), id) == Some(n),
        node_with(d, id) is None ==> replaced(d, id, n) == d,
        replaced(d, id, n) == (DocumentView { annotations: replaced(d, id, n).annotations, ..d }),
{
    crate::editor::document::law_found_at_the_first_place(d.annotations, id);
    let p = crate::editor::document::position_of(d.annotations, id);
    if p < d.annotations.len() {
        let after = d.annotations.update(p, n);
        assert(replaced(d, id, n).annotations == after);
        if n.id() == id {
            crate::editor::document::law_found_at_the_first_place(after, id);
            let q = crate::editor::document::position_of(after, id);
            assert(after[p] == n);
            if q < p {
                assert(after[q] == d.annotations[q]);
            }
        }
    }
}

/// Adding puts an annotation on top of the others, removing takes away the one
/// with the id, changing puts another in its place; each can be undone, and
/// each leaves unsaved changes.
pub proof fn law_commands_change_the_annotations(s: SessionView, n: NodeView, id: NodeId)
    ensures
        executed(s, adding(n)).document.annotations == s.document.annotations.push(n),
        executed(s, adding(n)).dirty && executed(s, removing(id)).dirty,
        executed(s, adding(n)).history.undo.len() > 0,
        executed(s, adding(n)).history.redo.len() == 0,
        executed(s, removing(id)).document.annotations.len() == s.document.annotations.len() - (
        if crate::editor::document::has_id(s.document.annotations, id) {
            1int
        } else {
            0
        }),
        node_with(s.document, id) matches Some(before) ==> executed(
            s,
            changing(before, n),
        ).document == replaced(s.document, id, n),
        executed(s, adding(n)).tool == s.tool && executed(s, adding(n)).selected == s.selected,
{
    crate::editor::document::law_found_at_the_first_place(s.document.annotations, id);
}

/// A step back or forward leaves unsaved changes where there is one to take,
/// and changes nothing where there is none.
pub proof fn law_steps_leave_changes(s: SessionView)
    ensures
        s.history.undo.len() == 0 ==> undone(s) == s,
        s.history.redo.len() == 0 ==> redone(s) == s,
        s.history.undo.len() > 0 ==> undone(s).dirty && undone(s).history.undo.len()
            == s.history.undo.len() - 1 && undone(s).history.redo.len() == s.history.redo.len() + 1,
        s.history.redo.len() > 0 ==> redone(s).dirty && redone(s).history.redo.len()
            == s.history.redo.len() - 1 && redone(s).history.undo.len() == s.history.undo.len() + 1,
        undone(s).selected == s.selected && undone(s).tool == s.tool && undone(s).style == s.style,
        redone(s).selected == s.selected && redone(s).tool == s.tool && redone(s).style == s.style,
{
}

/// Deleting takes the selected annotation away and ends the selection; undoing
/// brings it back.
pub proof fn law_deleting_can_be_undone(s: SessionView)
    requires
        s.selected matches Some(id) ==> crate::editor::document::has_id(s.document.annotations, id),
        s.document.annotations.len() <= usize::MAX,
    ensures
        deleted(s).selected is None,
        s.selected is None ==> deleted(s) == s,
        s.selected is Some ==> deleted(s).document.annotations.len()
            == s.document.annotations.len() - 1 && deleted(s).dirty,
        undone(deleted(s)).document == s.document || s.selected is None,
{
    if s.selected is Some {
        let id = s.selected->Some_0;
        crate::editor::document::law_found_at_the_first_place(s.document.annotations, id);
        crate::editor::commands::law_undo_redo_after_push(s.history, removing(id), s.document);
    }
}

/// A click with the selection tool grabs what was hit: the handle of what is
/// selected already, else the whole, which is selected then. A click beside
/// everything ends the selection. Nothing moves yet.
pub proof fn law_click_grabs_what_was_hit(
    s: SessionView,
    p: Point,
    hit: Option<NodeId>,
    near: NearHandles,
)
    ensures
        ({
            let g = grabbing(s, p, hit, near);
            let found = if hit is Some {
                node_with(s.document, hit->Some_0)
            } else {
                None
            };
            &&& g.selected == hit
            &&& g.document == s.document && g.history == s.history && g.dirty == s.dirty
            &&& found is None ==> g.pending == s.pending
            &&& found is Some ==> g.pending is Some && !(g.pending->Some_0 is Rect)
            &&& g.pending != s.pending ==> (match g.pending->Some_0 {
                PendingView::Move { target, start_node, start_mouse, cur_mouse } => {
                    &&& Some(target) == hit && Some(start_node) == found
                    &&& start_mouse == p && cur_mouse == p
                    &&& s.selected != hit || crate::editor::tools::selection::grabbed(
                        start_node,
                        near,
                    ) is None
                },
                PendingView::Resize { target, start_node, start_mouse, cur_mouse, handle } => {
                    &&& Some(target) == hit && Some(start_node) == found
                    &&& start_mouse == p && cur_mouse == p
                    &&& s.selected == hit
                    &&& crate::editor::tools::selection::grabbed(start_node, near) == Some(handle)
                },
                PendingView::Rect { .. } => false,
            })
        }),
{
}

/// Pressing the button with a drawing tool begins a drag at the point; with a
/// marker's or a banner's tool it adds that at once, on top, and a marker's
/// number moves on.
pub proof fn law_press_begins_a_drag(
    s: SessionView,
    p: Point,
    curved: Seq<bool>,
    near: NearHandles,
    id: NodeId,
)
    requires
        s.editing is None,
    ensures
        ({
            let d = after_down(s, p, curved, near, Some(id));
            let placing = s.tool == Tool::Step || s.tool == Tool::CaptureInfo;
            &&& s.tool != Tool::Select && !placing ==> d == (SessionView {
                pending: Some(PendingView::Rect { start: p, cur: p }),
                ..s
            })
            &&& placing ==> d.document.annotations.len() == s.document.annotations.len() + 1
                && is_made_by(s.tool, d.document.annotations.last())
                && d.document.annotations.last().id() == id && d.dirty && d.pending == s.pending
            &&& placing ==> d.document.annotations.drop_last() == s.document.annotations
            &&& s.tool == Tool::Step ==> d.document.annotations.last()->Step_center == p
                && d.document.annotations.last()->Step_number == s.style.step.next_number
            &&& s.tool == Tool::Step && s.style.step.next_number < u32::MAX
                ==> d.style.step.next_number == s.style.step.next_number + 1
            &&& s.tool != Tool::Step ==> d.style == s.style
            &&& s.tool == Tool::Select ==> d.document == s.document
        }),
{
    let d = after_down(s, p, curved, near, Some(id));
    assert(after_blur(s) == s);
    if s.tool == Tool::Step || s.tool == Tool::CaptureInfo {
        assert(d.document.annotations.drop_last() =~= s.document.annotations);
    }
}

/// Moving the pointer moves the end of the drag and keeps its beginning. A box
/// that is being drawn touches no annotation; one that is being dragged shows
/// its new shape.
pub proof fn law_move_moves_the_end(s: SessionView, p: Point, live: Option<NodeView>)
    ensures
        ({
            let m = after_move(s, p, live);
            &&& m.selected == s.selected && m.history == s.history && m.dirty == s.dirty
            &&& m.pending is Some <==> s.pending is Some
            &&& s.pending matches Some(PendingView::Rect { start, .. }) ==> m.pending == Some(
                PendingView::Rect { start, cur: p },
            ) && m.document == s.document
            &&& s.pending matches Some(
                PendingView::Move { target, start_node, start_mouse, .. },
            ) ==> m.pending == Some(
                PendingView::Move { target, start_node, start_mouse, cur_mouse: p },
            ) && (live matches Some(n) ==> m.document == replaced(s.document, target, n))
            &&& s.pending matches Some(
                PendingView::Resize { target, start_node, start_mouse, handle, .. },
            ) ==> m.pending == Some(
                PendingView::Resize { target, start_node, start_mouse, cur_mouse: p, handle },
            ) && (live matches Some(n) ==> m.document == replaced(s.document, target, n))
            &&& live is None ==> m.document == s.document
            &&& dragged_way(m) matches Some((from, to)) ==> to == p && dragged_way(s) is Some
                && dragged_way(s)->Some_0.0 == from
        }),
{
}

/// Releasing the button ends the drag. What was drawn lies on top of the other
/// annotations; a new text box is selected and its text edited at once.
pub proof fn law_release_ends_the_drag(
    s: SessionView,
    p: Point,
    narrow: bool,
    flat: bool,
    target: Bounds,
    tail: Point,
    after: Option<NodeView>,
    new_id: Option<NodeId>,
)
    requires
        new_id is Some <==> draws(s, narrow, flat),
    ensures
        ({
            let u = after_up(s, p, narrow, flat, target, tail, after, new_id);
            &&& u.pending is None
            &&& draws(s, narrow, flat) ==> {
                let n = u.document.annotations.last();
                &&& u.document.annotations.len() == s.document.annotations.len() + 1
                &&& u.document.annotations.drop_last() == s.document.annotations
                &&& is_made_by(s.tool, n) && Some(n.id()) == new_id
                &&& u.dirty
                &&& s.tool == Tool::Text ==> u.editing == Some((n.id(), n)) && u.selected == new_id
                &&& s.tool != Tool::Text ==> u.editing == s.editing && u.selected == s.selected
            }
            &&& !draws(s, narrow, flat) && (s.pending is None || s.pending->Some_0 is Rect)
                ==> u.document == s.document && u.history == s.history && u.dirty == s.dirty
        }),
{
    let u = after_up(s, p, narrow, flat, target, tail, after, new_id);
    if draws(s, narrow, flat) {
        assert(u.document.annotations.drop_last() =~= s.document.annotations);
    }
}

/// Replacing the text of a text box replaces that alone; other annotations have
/// none to replace.
pub proof fn law_text_is_replaced(n: NodeView, t: Seq<char>, u: Seq<char>)
    ensures
        n is Text ==> with_text(n, t) is Text && with_text(n, t)->Text_text == t,
        n is Text ==> with_text(n, n->Text_text) == n,
        with_text(with_text(n, t), u) == with_text(n, u),
        !(n is Text) ==> with_text(n, t) == n,
        with_text(n, t).id() == n.id(),
{
}

/// A double click edits the text box that was hit, and does nothing elsewhere.
pub proof fn law_double_click_edits_text(s: SessionView, hit: Option<NodeId>)
    ensures
        ({
            let d = after_double_click(s, hit);
            let n = if hit is Some {
                node_with(s.document, hit->Some_0)
            } else {
                None
            };
            &&& n is Some && n->Some_0 is Text ==> d.editing == Some((hit->Some_0, n->Some_0))
                && d.selected == hit
            &&& !(n is Some && n->Some_0 is Text) ==> d == s
            &&& d.document == s.document && d.history == s.history && d.dirty == s.dirty
        }),
{
}

/// Handles are shown round the annotation that is selected, unless it is the
/// text box that is being edited: that has a text field with its text. A banner
/// has neither, and nothing is shown where nothing is selected.
pub proof fn law_selection_is_outlined(s: SessionView, circle: Bounds)
    ensures
        ({
            let n = if s.selected is Some {
                node_with(s.document, s.selected->Some_0)
            } else {
                None
            };
            let edited = n is Some && n->Some_0 is Text && s.editing is Some && Some(
                s.editing->Some_0.0,
            ) == s.selected;
            &&& chrome_of(s, circle) is Nothing <==> n is None || n->Some_0 is CaptureInfo
            &&& chrome_of(s, circle) is TextField <==> edited
            &&& chrome_of(s, circle) matches ChromeView::TextField { rect, text } ==> text
                == n->Some_0->Text_text && rect == n->Some_0->Text_rect
            &&& chrome_of(s, circle) matches ChromeView::Handles { rect } ==> {
                let b = crate::editor::tools::selection::click_box(n->Some_0);
                &&& b is Some ==> Some(rect) == b
                &&& n->Some_0 is Step ==> rect == circle
                &&& n->Some_0 matches NodeView::Arrow { start, end, .. } ==> rect
                    == Bounds::spanned(start, end)
            }
        }),
{
}

/// While something is drawn, a mark in the tool's colour follows the pointer: a
/// line for an arrow, an ellipse for an ellipse, else a box.
pub proof fn law_mark_follows_the_drag(s: SessionView)
    ensures
        match drag_mark_of(s) {
            DragMark::Nothing => !(s.pending is Some && s.pending->Some_0 is Rect),
            DragMark::Line { start, end, color, width } => s.tool == Tool::Arrow && s.pending
                == Some(PendingView::Rect { start, cur: end }) && color == s.style.arrow.color
                && width == s.style.arrow.thickness,
            DragMark::Ellipse { rect, color, width } => {
                &&& s.tool == Tool::Ellipse
                &&& s.pending matches Some(PendingView::Rect { start, cur }) && rect
                    == Bounds::spanned(start, cur)
                &&& color == s.style.shape.stroke && width == s.style.shape.stroke_width
            },
            DragMark::Box { rect, color, width } => {
                &&& s.tool != Tool::Arrow && s.tool != Tool::Ellipse
                &&& s.pending matches Some(PendingView::Rect { start, cur }) && rect
                    == Bounds::spanned(start, cur)
                &&& color == s.style.shape.stroke && crate::px::is_pattern_of(width.bits, 3, 0, 2)
            },
        },
{
}

/// A window has room for the picture and its panels between two limits: within
/// them a larger picture makes it larger by as much.
pub proof fn law_window_fits_the_picture(
    picture: int,
    larger: int,
    panel: int,
    least: int,
    most: int,
)
    requires
        least <= most,
        picture <= larger,
    ensures
        least <= window_extent(picture, panel, least, most) <= most,
        window_extent(picture, panel, least, most) <= window_extent(larger, panel, least, most),
        least <= picture + panel && larger + panel <= most ==> window_extent(
            larger,
            panel,
            least,
            most,
        ) - window_extent(picture, panel, least, most) == larger - picture,
        least <= picture + panel <= most ==> window_extent(picture, panel, least, most) - panel
            == picture,
        picture + panel <= least ==> window_extent(picture, panel, least, most) == least,
        picture + panel >= most ==> window_extent(picture, panel, least, most) == most,
{
}

} // verus!
