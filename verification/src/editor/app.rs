//! The classic editor window: a tool bar of knobs, a canvas with a movable
//! cursor layer, and panels for the document.
use vstd::prelude::*;
use crate::codec::{encode_png, resize, rotate270, rotate90};
use crate::editor::commands::{
    AddAnnotation, Command, CommandView, History, HistoryView, Placement, RemoveAnnotation,
    RemoveCursor, SetBorder, SetEdgeEffect, UpdateAnnotation, UpdateCursor,
};
use crate::editor::document::{
    copy_fields, find_position, AnnotationNode, ArrowHeadStyle, ArrowLineStyle, Border,
    CaptureInfoPosition, CaptureInfoStyle, Document, DocumentView, EdgeEffect, FieldKind, NodeId, NodeView, ShapeKind, TextAlign,
    TextListStyle,
};
use crate::editor::flatten::{bake, compose_cursor, Part};
use crate::editor::preset_panel::set_side;
use crate::editor::rasterize::{BorderMetrics, TornDepths};
use crate::editor::session::same_node;
use crate::editor::style::toggle_field;
use crate::editor::tools::selection::{Handle, NearHandles, SelectionTarget};
use crate::editor::tools::Tool;
use crate::image::RgbaImage;
use crate::px::{
    Bounds, Point, Px, Rgba, BITS_0, BITS_1, BITS_10, BITS_12, BITS_128, BITS_20, BITS_24, BITS_28,
    BITS_4, BITS_40, BITS_6, BITS_64, BITS_8, BITS_80, BITS_HALF,
    BITS_MINUS_20,
};
use crate::text::{from_chars, push_text, to_chars, trim_chars, CharClass};

verus! {

// ---------------------------------------------------------------------------
// State
// ---------------------------------------------------------------------------

/// What the tool bar sets for new annotations.
#[derive(Debug, Clone, Copy, PartialEq, Eq, Structural)]
pub struct Knobs {
    pub color: Rgba,
    /// The outline of shapes and balloons, and the border of loupes.
    pub stroke_color: Rgba,
    /// Shapes and balloons get a translucent fill; otherwise they are outlines only.
    pub use_fill: bool,
    pub thickness: Px,
    pub text_size: Px,
    pub step_radius: Px,
    pub magnify_circular: bool,
    pub blur_radius: Px,
}

/// The size that the picture gets when it is exported.
#[derive(Debug, Clone, Copy, PartialEq, Eq, Structural)]
pub struct ExportSize {
    pub width: u32,
    pub height: u32,
    pub lock_aspect: bool,
}

/// A drag that draws.
#[derive(Debug, Clone, Copy, PartialEq, Eq, Structural)]
pub struct PendingDrag {
    pub start: Point,
    pub current: Point,
}

/// A text that is being typed: where, what, and the text box that it replaces.
#[derive(Debug)]
pub struct PendingText {
    pub rect: Bounds,
    pub buffer: String,
    pub editing_id: Option<NodeId>,
}

/// A pending text as plain values.
pub struct PendingTextView {
    pub rect: Bounds,
    pub buffer: Seq<char>,
    pub editing_id: Option<NodeId>,
}

/// The view of a pending text, if there is one.
pub open spec fn pending_text_view(t: Option<PendingText>) -> Option<PendingTextView> {
    match t {
        Some(t) => Some(
            PendingTextView { rect: t.rect, buffer: t.buffer@, editing_id: t.editing_id },
        ),
        None => None,
    }
}

/// A handle that is being dragged.
#[derive(Debug)]
pub struct ActiveHandle {
    pub target: SelectionTarget,
    pub handle: Handle,
    /// The box when the drag began; the start and the end of an arrow.
    pub start_rect: Bounds,
    /// The tip of a balloon's tail.
    pub start_tail: Option<Point>,
    /// The region that a loupe shows.
    pub start_source: Option<Bounds>,
    /// The annotation when the drag began.
    pub before: Option<AnnotationNode>,
    /// The cursor's place when the drag began.
    pub before_cursor: Option<(i32, i32, u32, u32)>,
    /// Where the pointer was.
    pub anchor: Point,
}

/// A dragged handle as plain values.
pub struct ActiveView {
    pub target: SelectionTarget,
    pub handle: Handle,
    pub start_rect: Bounds,
    pub start_tail: Option<Point>,
    pub start_source: Option<Bounds>,
    pub before: Option<NodeView>,
    pub before_cursor: Option<Placement>,
    pub anchor: Point,
}

impl View for ActiveHandle {
    type V = ActiveView;

    open spec fn view(&self) -> ActiveView {
        ActiveView {
            target: self.target,
            handle: self.handle,
            start_rect: self.start_rect,
            start_tail: self.start_tail,
            start_source: self.start_source,
            before: crate::editor::commands::node_view(self.before),
            before_cursor: self.before_cursor,
            anchor: self.anchor,
        }
    }
}

/// The view of a dragged handle, if there is one.
pub open spec fn active_view(a: Option<ActiveHandle>) -> Option<ActiveView> {
    match a {
        Some(a) => Some(a@),
        None => None,
    }
}

/// The panel at the right.
#[derive(Debug, Clone, Copy, PartialEq, Eq, Structural)]
pub enum InspectorTab {
    Document,
    Presets,
    Styles,
}

/// The editor window.
#[derive(Debug)]
pub struct EditorApp {
    pub document: Document,
    pub history: History,
    pub tool: Tool,
    pub pending_drag: Option<PendingDrag>,
    pub pending_text: Option<PendingText>,
    pub selection: Option<SelectionTarget>,
    pub active_handle: Option<ActiveHandle>,
    pub knobs: Knobs,
    pub info_position: CaptureInfoPosition,
    pub info_fields: Vec<FieldKind>,
    pub export_size: ExportSize,
    pub dirty: bool,
    pub saved_once: bool,
    pub status: String,
    pub close_prompt_shown: bool,
    pub inspector_tab: InspectorTab,
}

/// The editor window as plain values.
#[verifier::ext_equal]
pub struct AppView {
    pub document: DocumentView,
    pub history: HistoryView,
    pub tool: Tool,
    pub pending_drag: Option<PendingDrag>,
    pub pending_text: Option<PendingTextView>,
    pub selection: Option<SelectionTarget>,
    pub active_handle: Option<ActiveView>,
    pub knobs: Knobs,
    pub info_position: CaptureInfoPosition,
    pub info_fields: Seq<FieldKind>,
    pub export_size: ExportSize,
    pub dirty: bool,
    pub saved_once: bool,
    pub status: Seq<char>,
    pub close_prompt_shown: bool,
    pub inspector_tab: InspectorTab,
}

impl View for EditorApp {
    type V = AppView;

    open spec fn view(&self) -> AppView {
        AppView {
            document: self.document@,
            history: self.history@,
            tool: self.tool,
            pending_drag: self.pending_drag,
            pending_text: pending_text_view(self.pending_text),
            selection: self.selection,
            active_handle: active_view(self.active_handle),
            knobs: self.knobs,
            info_position: self.info_position,
            info_fields: self.info_fields@,
            export_size: self.export_size,
            dirty: self.dirty,
            saved_once: self.saved_once,
            status: self.status@,
            close_prompt_shown: self.close_prompt_shown,
            inspector_tab: self.inspector_tab,
        }
    }
}

/// The knobs that the window starts with.
pub open spec fn initial_knobs() -> Knobs {
    Knobs {
        color: Rgba { r: 220, g: 40, b: 40, a: 255 },
        stroke_color: Rgba { r: 10, g: 10, b: 10, a: 255 },
        use_fill: true,
        thickness: Px { bits: BITS_6 },
        text_size: Px { bits: BITS_28 },
        step_radius: Px { bits: BITS_24 },
        magnify_circular: true,
        blur_radius: Px { bits: BITS_12 },
    }
}

/// The window after a command.
pub open spec fn commanded(s: AppView, c: CommandView) -> AppView {
    let (history, document) = crate::editor::commands::pushed(s.history, c, s.document);
    AppView { document, history, dirty: true, ..s }
}

/// The window one step back.
pub open spec fn stepped_back(s: AppView) -> AppView {
    let (history, document) = crate::editor::commands::undone(s.history, s.document);
    AppView { document, history, dirty: s.dirty || s.history.undo.len() > 0, ..s }
}

/// The window one step forward.
pub open spec fn stepped_forward(s: AppView) -> AppView {
    let (history, document) = crate::editor::commands::redone(s.history, s.document);
    AppView { document, history, dirty: s.dirty || s.history.redo.len() > 0, ..s }
}

impl EditorApp {
    /// The window of a document.
    pub fn new(document: Document) -> (r: EditorApp)
        ensures
            r@ == (AppView {
                document: document@,
                history: HistoryView { undo: Seq::empty(), redo: Seq::empty() },
                tool: Tool::Arrow,
                pending_drag: None,
                pending_text: None,
                selection: None,
                active_handle: None,
                knobs: initial_knobs(),
                info_position: CaptureInfoPosition::BottomRight,
                info_fields: seq![
                    FieldKind::Timestamp,
                    FieldKind::WindowTitle,
                    FieldKind::ProcessName,
                    FieldKind::OsVersion,
                ],
                export_size: ExportSize {
                    width: document@.base_width,
                    height: document@.base_height,
                    lock_aspect: true,
                },
                dirty: false,
                saved_once: false,
                status: Seq::empty(),
                close_prompt_shown: false,
                inspector_tab: InspectorTab::Document,
            }),
    {
        let export_size = ExportSize {
            width: document.base_width,
            height: document.base_height,
            lock_aspect: true,
        };
        EditorApp {
            document,
            history: History::new(),
            tool: Tool::Arrow,
            pending_drag: None,
            pending_text: None,
            selection: None,
            active_handle: None,
            knobs: Knobs {
                color: Rgba { r: 220, g: 40, b: 40, a: 255 },
                stroke_color: Rgba { r: 10, g: 10, b: 10, a: 255 },
                use_fill: true,
                thickness: Px { bits: BITS_6 },
                text_size: Px { bits: BITS_28 },
                step_radius: Px { bits: BITS_24 },
                magnify_circular: true,
                blur_radius: Px { bits: BITS_12 },
            },
            info_position: CaptureInfoPosition::BottomRight,
            info_fields: crate::editor::tools::capture_info::default_fields(),
            export_size,
            dirty: false,
            saved_once: false,
            status: String::new(),
            close_prompt_shown: false,
            inspector_tab: InspectorTab::Document,
        }
    }

    /// Applies a command through the history.
    pub fn push_command(&mut self, cmd: Command)
        ensures
            final(self)@ == commanded(old(self)@, cmd@),
    {
        self.history.push(cmd, &mut self.document);
        self.dirty = true;
    }

    /// Takes one step back.
    pub fn undo(&mut self)
        ensures
            final(self)@ == stepped_back(old(self)@),
    {
        if self.history.undo(&mut self.document) {
            self.dirty = true;
        }
    }

    /// Takes one step forward.
    pub fn redo(&mut self)
        ensures
            final(self)@ == stepped_forward(old(self)@),
    {
        if self.history.redo(&mut self.document) {
            self.dirty = true;
        }
    }

    fn node(&self, id: NodeId) -> (r: Option<AnnotationNode>)
        ensures
            crate::editor::commands::node_view(r) == crate::editor::session::node_with(
                self@.document,
                id,
            ),
            r matches Some(n) ==> n@.id() == id,
    {
        proof {
            crate::editor::document::lemma_position_of(self@.document.annotations, id);
        }
        match find_position(&self.document.annotations, id) {
            Some(i) => {
                assert(self@.document.annotations[i as int] == self.document.annotations@[i as int]@);
                Some(self.document.annotations[i].clone())
            },
            None => None,
        }
    }

    fn put_node(&mut self, id: NodeId, n: AnnotationNode)
        ensures
            final(self)@ == (AppView {
                document: crate::editor::session::replaced(old(self)@.document, id, n@),
                ..old(self)@
            }),
    {
        proof {
            crate::editor::document::lemma_position_of(self@.document.annotations, id);
        }
        match find_position(&self.document.annotations, id) {
            Some(i) => {
                let ghost before = self.document.annotations@;
                let ghost v = n@;
                self.document.annotations.set(i, n);
                assert(crate::editor::document::node_views(self.document.annotations@)
                    =~= crate::editor::document::node_views(before).update(i as int, v));
            },
            None => {},
        }
    }

    /// Removes what is selected: an annotation or the cursor layer.
    pub fn delete_selection(&mut self)
        ensures
            final(self)@ == selection_deleted(old(self)@),
    {
        let selection = self.selection;
        match selection {
            Some(SelectionTarget::Annotation(id)) => {
                self.selection = None;
                self.push_command(Command::Remove(RemoveAnnotation::new(id)));
            },
            Some(SelectionTarget::Cursor) => {
                self.selection = None;
                self.push_command(Command::RemoveCursor(RemoveCursor::new()));
            },
            None => {},
        }
    }
}

/// The window after what was selected is removed.
pub open spec fn selection_deleted(s: AppView) -> AppView {
    let s1 = AppView { selection: None, ..s };
    match s.selection {
        Some(SelectionTarget::Annotation(id)) => commanded(
            s1,
            crate::editor::session::removing(id),
        ),
        Some(SelectionTarget::Cursor) => commanded(
            s1,
            CommandView::RemoveCursor { saved: None },
        ),
        None => s,
    }
}

// ---------------------------------------------------------------------------
// Typing
// ---------------------------------------------------------------------------

/// The text box that a finished text makes.
pub open spec fn typed_box(
    rect: Bounds,
    text: Seq<char>,
    knobs: Knobs,
    id: NodeId,
) -> NodeView {
    NodeView::Text {
        id,
        rect,
        text,
        color: knobs.color,
        size_px: knobs.text_size,
        frosted: false,
        shadow: false,
        align: TextAlign::Left,
        list: TextListStyle::Plain,
    }
}

/// The window after the pending text is finished: a new text makes a box, unless
/// it is blank; an edited box gets the text, or goes if it is blank. `new_id` is
/// the identity of a new box.
pub open spec fn text_committed(s: AppView, new_id: Option<NodeId>) -> AppView {
    match s.pending_text {
        None => s,
        Some(t) => {
            let s1 = AppView { pending_text: None, ..s };
            let text = crate::text::trim(t.buffer, CharClass::Whitespace);
            match t.editing_id {
                None => match new_id {
                    Some(id) => commanded(
                        s1,
                        crate::editor::session::adding(typed_box(t.rect, text, s.knobs, id)),
                    ),
                    None => s1,
                },
                Some(id) => match crate::editor::session::node_with(s.document, id) {
                    Some(before) => if text.len() == 0 {
                        commanded(s1, crate::editor::session::removing(id))
                    } else {
                        commanded(
                            s1,
                            crate::editor::session::changing(
                                before,
                                crate::editor::session::with_text(before, text),
                            ),
                        )
                    },
                    None => s1,
                },
            }
        },
    }
}

/// Whether finishing the pending text makes a new box.
pub open spec fn makes_box(s: AppView) -> bool {
    match s.pending_text {
        Some(t) => t.editing_id is None && crate::text::trim(
            t.buffer,
            CharClass::Whitespace,
        ).len() > 0,
        None => false,
    }
}

impl EditorApp {
    /// Finishes the pending text. The result is the identity of a new text box.
    pub fn commit_pending_text(&mut self) -> (r: Option<NodeId>)
        ensures
            final(self)@ == text_committed(old(self)@, r),
            r is Some <==> makes_box(old(self)@),
            r matches Some(id) ==> crate::editor::document::is_random_uuid(id.value),
    {
        let pending = self.pending_text.take();
        match pending {
            Some(t) => {
                let chars = to_chars(t.buffer.as_str());
                let trimmed = trim_chars(chars.as_slice(), CharClass::Whitespace);
                match t.editing_id {
                    None => {
                        if trimmed.len() == 0 {
                            return None;
                        }
                        let node = crate::editor::tools::text::make(
                            t.rect,
                            from_chars(trimmed.as_slice()),
                            self.knobs.color,
                            self.knobs.text_size,
                            false,
                            false,
                            TextAlign::Left,
                            TextListStyle::Plain,
                        );
                        let id = node.id();
                        self.push_command(Command::Add(AddAnnotation::new(node)));
                        Some(id)
                    },
                    Some(id) => {
                        let found = self.node(id);
                        match found {
                            Some(before) => {
                                if trimmed.len() == 0 {
                                    self.push_command(Command::Remove(RemoveAnnotation::new(id)));
                                } else {
                                    let mut after = before.clone();
                                    match &mut after {
                                        AnnotationNode::Text { text, .. } => {
                                            *text = from_chars(trimmed.as_slice());
                                        },
                                        _ => {},
                                    }
                                    self.push_command(
                                        Command::Update(UpdateAnnotation::new(before, after)),
                                    );
                                }
                            },
                            None => {},
                        }
                        None
                    },
                }
            },
            None => None,
        }
    }

    /// Drops the pending text.
    pub fn cancel_pending_text(&mut self)
        ensures
            final(self)@ == (AppView { pending_text: None, ..old(self)@ }),
    {
        self.pending_text = None;
    }

    /// The keys that end typing, once the text field has seen them: Escape drops the
    /// pending text, otherwise Enter finishes it. The result is the identity of a new
    /// text box.
    pub fn text_keys(&mut self, escape: bool, enter: bool) -> (r: Option<NodeId>)
        ensures
            final(self)@ == (if old(self)@.pending_text is None {
                old(self)@
            } else if escape {
                AppView { pending_text: None, ..old(self)@ }
            } else if enter {
                text_committed(old(self)@, r)
            } else {
                old(self)@
            }),
            r is Some <==> !escape && enter && makes_box(old(self)@),
            r matches Some(id) ==> crate::editor::document::is_random_uuid(id.value),
    {
        if self.pending_text.is_none() {
            return None;
        }
        if escape {
            self.cancel_pending_text();
            None
        } else if enter {
            self.commit_pending_text()
        } else {
            None
        }
    }
}

// ---------------------------------------------------------------------------
// The tool bar
// ---------------------------------------------------------------------------

/// A knob with a slider.
#[derive(Debug, Clone, Copy, PartialEq, Eq, Structural)]
pub enum Knob {
    Thickness,
    TextSize,
    StepRadius,
    BlurRadius,
}

/// What stands before a slider.
#[derive(Debug, Clone, Copy, PartialEq, Eq, Structural)]
pub enum SliderTitle {
    Thickness,
    Size,
    StrokeWidth,
    TextSize,
    Radius,
    Border,
}

impl SliderTitle {
    /// The text before the slider.
    pub fn label(self) -> (r: &'static str)
        ensures
            r@ == match self {
                SliderTitle::Thickness => "Thickness"@,
                SliderTitle::Size => "Size"@,
                SliderTitle::StrokeWidth => "Stroke width"@,
                SliderTitle::TextSize => "Text size"@,
                SliderTitle::Radius => "Radius"@,
                SliderTitle::Border => "Border"@,
            },
    {
        match self {
            SliderTitle::Thickness => "Thickness",
            SliderTitle::Size => "Size",
            SliderTitle::StrokeWidth => "Stroke width",
            SliderTitle::TextSize => "Text size",
            SliderTitle::Radius => "Radius",
            SliderTitle::Border => "Border",
        }
    }
}

/// A control of the tool bar.
#[derive(Debug, Clone, Copy, PartialEq, Eq, Structural)]
pub enum Control {
    Color,
    StrokeColor,
    Fill,
    Slider { title: SliderTitle, knob: Knob, min: Px, max: Px },
    Circular,
    InfoPosition,
    InfoField(FieldKind),
    PlaceInfo,
}

/// The controls that the tool bar shows for a tool, in order.
pub open spec fn controls_of(tool: Tool) -> Seq<Control> {
    let color = seq![Control::Color];
    let outline = seq![Control::Color, Control::StrokeColor, Control::Fill];
    match tool {
        Tool::Select => color,
        Tool::Arrow => color.push(
            slider(SliderTitle::Thickness, Knob::Thickness, BITS_1, BITS_40),
        ),
        Tool::Text => color.push(slider(SliderTitle::Size, Knob::TextSize, BITS_8, BITS_128)),
        Tool::Rect | Tool::Ellipse => outline.push(
            slider(SliderTitle::StrokeWidth, Knob::Thickness, BITS_1, BITS_24),
        ),
        Tool::Callout => outline.push(
            slider(SliderTitle::StrokeWidth, Knob::Thickness, BITS_1, BITS_24),
        ).push(slider(SliderTitle::TextSize, Knob::TextSize, BITS_8, BITS_64)),
        Tool::Step => color.push(slider(SliderTitle::Radius, Knob::StepRadius, BITS_10, BITS_80)),
        Tool::Magnify => outline.push(Control::Circular).push(
            slider(SliderTitle::Border, Knob::Thickness, BITS_0, BITS_10),
        ),
        Tool::Blur => color.push(slider(SliderTitle::Radius, Knob::BlurRadius, BITS_1, BITS_64)),
        Tool::CaptureInfo => seq![
            Control::Color,
            Control::InfoPosition,
            Control::InfoField(FieldKind::Timestamp),
            Control::InfoField(FieldKind::WindowTitle),
            Control::InfoField(FieldKind::ProcessName),
            Control::InfoField(FieldKind::OsVersion),
            Control::InfoField(FieldKind::MonitorInfo),
            Control::PlaceInfo,
        ],
    }
}

/// A slider between two bounds.
pub open spec fn slider(title: SliderTitle, knob: Knob, min: u32, max: u32) -> Control {
    Control::Slider { title, knob, min: Px { bits: min }, max: Px { bits: max } }
}

fn slide(title: SliderTitle, knob: Knob, min: u32, max: u32) -> (r: Control)
    ensures
        r == slider(title, knob, min, max),
{
    Control::Slider { title, knob, min: Px { bits: min }, max: Px { bits: max } }
}

/// The controls that the tool bar shows for a tool.
pub fn toolbar(tool: Tool) -> (r: Vec<Control>)
    ensures
        r@ == controls_of(tool),
{
    let mut out: Vec<Control> = Vec::new();
    out.push(Control::Color);
    match tool {
        Tool::Rect | Tool::Ellipse | Tool::Callout | Tool::Magnify => {
            out.push(Control::StrokeColor);
            out.push(Control::Fill);
        },
        _ => {},
    }
    match tool {
        Tool::Select => {},
        Tool::Arrow => {
            out.push(slide(SliderTitle::Thickness, Knob::Thickness, BITS_1, BITS_40));
        },
        Tool::Text => {
            out.push(slide(SliderTitle::Size, Knob::TextSize, BITS_8, BITS_128));
        },
        Tool::Rect | Tool::Ellipse => {
            out.push(slide(SliderTitle::StrokeWidth, Knob::Thickness, BITS_1, BITS_24));
        },
        Tool::Callout => {
            out.push(slide(SliderTitle::StrokeWidth, Knob::Thickness, BITS_1, BITS_24));
            out.push(slide(SliderTitle::TextSize, Knob::TextSize, BITS_8, BITS_64));
        },
        Tool::Step => {
            out.push(slide(SliderTitle::Radius, Knob::StepRadius, BITS_10, BITS_80));
        },
        Tool::Magnify => {
            out.push(Control::Circular);
            out.push(slide(SliderTitle::Border, Knob::Thickness, BITS_0, BITS_10));
        },
        Tool::Blur => {
            out.push(slide(SliderTitle::Radius, Knob::BlurRadius, BITS_1, BITS_64));
        },
        Tool::CaptureInfo => {
            out.push(Control::InfoPosition);
            out.push(Control::InfoField(FieldKind::Timestamp));
            out.push(Control::InfoField(FieldKind::WindowTitle));
            out.push(Control::InfoField(FieldKind::ProcessName));
            out.push(Control::InfoField(FieldKind::OsVersion));
            out.push(Control::InfoField(FieldKind::MonitorInfo));
            out.push(Control::PlaceInfo);
        },
    }
    assert(out@ =~= controls_of(tool));
    out
}

impl Knobs {
    /// A slider was moved.
    pub fn slide(&mut self, knob: Knob, v: Px, min: Px, max: Px)
        requires
            min.at_most(max),
        ensures
            *final(self) == match knob {
                Knob::Thickness => Knobs { thickness: v.within(min, max), ..*old(self) },
                Knob::TextSize => Knobs { text_size: v.within(min, max), ..*old(self) },
                Knob::StepRadius => Knobs { step_radius: v.within(min, max), ..*old(self) },
                Knob::BlurRadius => Knobs { blur_radius: v.within(min, max), ..*old(self) },
            },
    {
        let value = v.clamp(min, max);
        match knob {
            Knob::Thickness => {
                self.thickness = value;
            },
            Knob::TextSize => {
                self.text_size = value;
            },
            Knob::StepRadius => {
                self.step_radius = value;
            },
            Knob::BlurRadius => {
                self.blur_radius = value;
            },
        }
    }
}

impl EditorApp {
    /// A tool was picked: a text that is being typed is finished first, unless the
    /// text tool stays. The result is the identity of a text box that this made.
    pub fn pick_tool(&mut self, tool: Tool) -> (r: Option<NodeId>)
        ensures
            ({
                let s = old(self)@;
                let leaves = s.tool == Tool::Text && tool != Tool::Text;
                &&& final(self)@ == (AppView {
                    tool,
                    pending_drag: None,
                    ..(if leaves {
                        text_committed(s, r)
                    } else {
                        s
                    })
                })
                &&& r is Some <==> leaves && makes_box(s)
            }),
            r matches Some(id) ==> crate::editor::document::is_random_uuid(id.value),
    {
        let mut made: Option<NodeId> = None;
        if self.tool == Tool::Text && tool != Tool::Text {
            made = self.commit_pending_text();
        }
        self.tool = tool;
        self.pending_drag = None;
        made
    }

    /// A field of the banner was switched.
    pub fn toggle_info_field(&mut self, f: FieldKind, on: bool)
        ensures
            final(self)@ == (AppView {
                info_fields: crate::editor::style::toggled(old(self)@.info_fields, f, on),
                ..old(self)@
            }),
    {
        let next = toggle_field(&self.info_fields, f, on);
        self.info_fields = next;
    }

    /// The button that places a banner. The result is its identity.
    pub fn place_info(&mut self) -> (r: NodeId)
        ensures
            crate::editor::document::is_random_uuid(r.value),
            final(self)@ == commanded(
                old(self)@,
                crate::editor::session::adding(
                    NodeView::CaptureInfo {
                        id: r,
                        position: old(self)@.info_position,
                        fields: old(self)@.info_fields,
                        style: crate::editor::session::banner_style(),
                    },
                ),
            ),
    {
        let node = crate::editor::tools::capture_info::make(
            self.info_position,
            copy_fields(&self.info_fields),
            CaptureInfoStyle::default(),
        );
        let id = node.id();
        self.push_command(Command::Add(AddAnnotation::new(node)));
        id
    }

    /// What the save button says.
    pub fn save_label(&self) -> (r: &'static str)
        ensures
            r@ == (if self.dirty || !self.saved_once {
                "Save (Ctrl+S)"@
            } else {
                "Saved \u{2713}"@
            }),
    {
        if self.dirty || !self.saved_once {
            "Save (Ctrl+S)"
        } else {
            "Saved \u{2713}"
        }
    }

    /// The document was saved at `path`, or not.
    pub fn saved(&mut self, outcome: Result<String, String>)
        ensures
            final(self)@ == match outcome {
                Ok(path) => AppView {
                    dirty: false,
                    saved_once: true,
                    status: "Saved to "@ + path@,
                    ..old(self)@
                },
                Err(why) => AppView { status: "Save failed: "@ + why@, ..old(self)@ },
            },
    {
        match outcome {
            Ok(path) => {
                self.dirty = false;
                self.saved_once = true;
                let mut out = to_chars("Saved to ");
                push_text(&mut out, path.as_str());
                self.status = from_chars(out.as_slice());
            },
            Err(why) => {
                let mut out = to_chars("Save failed: ");
                push_text(&mut out, why.as_str());
                self.status = from_chars(out.as_slice());
            },
        }
    }

    /// The picture was copied, or not.
    pub fn copied(&mut self, outcome: Result<(), String>)
        ensures
            final(self)@ == (AppView {
                status: match outcome {
                    Ok(_) => "Copied to clipboard"@,
                    Err(why) => "Copy failed: "@ + why@,
                },
                ..old(self)@
            }),
    {
        match outcome {
            Ok(_) => {
                self.status = "Copied to clipboard".to_owned();
            },
            Err(why) => {
                let mut out = to_chars("Copy failed: ");
                push_text(&mut out, why.as_str());
                self.status = from_chars(out.as_slice());
            },
        }
    }
}

// ---------------------------------------------------------------------------
// The document panel
// ---------------------------------------------------------------------------

/// A change of the torn edge in the document panel.
#[derive(Debug, Clone, Copy, PartialEq, Eq, Structural)]
pub enum EdgeChange {
    Side(crate::editor::document::Edge),
    Depth(Px),
    Tooth(Px),
}

/// The torn edge after a change: the depth between 1 and 80, the teeth between 4
/// and 80.
pub open spec fn edge_changed(e: EdgeEffect, c: EdgeChange) -> EdgeEffect {
    match c {
        EdgeChange::Side(side) => EdgeEffect { edge: side, ..e },
        EdgeChange::Depth(v) => EdgeEffect {
            depth: v.within(Px { bits: BITS_1 }, Px { bits: BITS_80 }),
            ..e
        },
        EdgeChange::Tooth(v) => EdgeEffect {
            teeth: v.within(Px { bits: BITS_4 }, Px { bits: BITS_80 }),
            ..e
        },
    }
}

/// A change of the border in the document panel.
#[derive(Debug, Clone, Copy, PartialEq, Eq, Structural)]
pub enum BorderChange {
    Color(Rgba),
    Width(Px),
    ShadowBlur(Px),
    ShadowDx(Px),
    ShadowDy(Px),
}

/// The border after a change: the width and the blur between 0 and 40, the shadow
/// at most 20 away.
pub open spec fn border_changed(b: Border, c: BorderChange) -> Border {
    match c {
        BorderChange::Color(v) => Border { color: v, ..b },
        BorderChange::Width(v) => Border {
            width: v.within(Px { bits: BITS_0 }, Px { bits: BITS_40 }),
            ..b
        },
        BorderChange::ShadowBlur(v) => Border {
            shadow_radius: v.within(Px { bits: BITS_0 }, Px { bits: BITS_40 }),
            ..b
        },
        BorderChange::ShadowDx(v) => Border {
            shadow_offset: Point {
                x: v.within(Px { bits: BITS_MINUS_20 }, Px { bits: BITS_20 }),
                y: b.shadow_offset.y,
            },
            ..b
        },
        BorderChange::ShadowDy(v) => Border {
            shadow_offset: Point {
                x: b.shadow_offset.x,
                y: v.within(Px { bits: BITS_MINUS_20 }, Px { bits: BITS_20 }),
            },
            ..b
        },
    }
}

/// The window after another torn edge was set.
pub open spec fn edge_put(s: AppView, after: Option<EdgeEffect>) -> AppView {
    commanded(s, CommandView::SetEdgeEffect { before: s.document.edge_effect, after })
}

/// The window after another border was set.
pub open spec fn border_put(s: AppView, after: Option<Border>) -> AppView {
    commanded(s, CommandView::SetBorder { before: s.document.border, after })
}

/// The window with the size for export following a new base picture.
pub open spec fn base_put(s: AppView, width: u32, height: u32, png: Seq<u8>) -> AppView {
    AppView {
        document: DocumentView {
            base_png: png,
            base_width: width,
            base_height: height,
            ..s.document
        },
        export_size: ExportSize { width, height, ..s.export_size },
        dirty: true,
        history: HistoryView { undo: Seq::empty(), redo: Seq::empty() },
        ..s
    }
}

/// `after` is `before` turned by a quarter clockwise.
pub open spec fn turned_right(before: &RgbaImage, after: &RgbaImage) -> bool {
    &&& after.wf()
    &&& after.width == before.height
    &&& after.height == before.width
    &&& forall|x: int, y: int|
        before.inside(x, y) ==> #[trigger] before.at(x, y) == after.at(before.height - 1 - y, x)
}

/// `after` is `before` turned by a quarter counter-clockwise.
pub open spec fn turned_left(before: &RgbaImage, after: &RgbaImage) -> bool {
    &&& after.wf()
    &&& after.width == before.height
    &&& after.height == before.width
    &&& forall|x: int, y: int|
        before.inside(x, y) ==> #[trigger] before.at(x, y) == after.at(y, before.width - 1 - x)
}

/// A turn to the right and one to the left give the picture back.
pub proof fn law_turns_cancel(a: &RgbaImage, b: &RgbaImage, c: &RgbaImage)
    requires
        a.wf(),
        (turned_right(a, b) && turned_left(b, c)) || (turned_left(a, b) && turned_right(b, c)),
    ensures
        c.same_size(a),
        forall|x: int, y: int| a.inside(x, y) ==> #[trigger] c.at(x, y) == a.at(x, y),
{
    assert forall|x: int, y: int| a.inside(x, y) implies #[trigger] c.at(x, y) == a.at(x, y) by {
        assert(a.at(x, y) == a.at(x, y));
        if turned_right(a, b) && turned_left(b, c) {
            assert(b.inside(a.height - 1 - y, x));
            assert(b.at(a.height - 1 - y, x) == c.at(x, b.width - 1 - (a.height - 1 - y)));
        } else {
            assert(b.inside(y, a.width - 1 - x));
            assert(b.at(y, a.width - 1 - x) == c.at(b.height - 1 - (a.width - 1 - x), y));
        }
    }
}

/// What export has to do with a flattened picture.
#[derive(Debug)]
pub enum ExportStep {
    /// The picture has the size for export.
    AsIs(RgbaImage),
    /// The picture has to be scaled to this size.
    Scale { picture: RgbaImage, width: u32, height: u32 },
}

/// The size of the exported picture.
pub open spec fn export_extent(s: ExportSize) -> (u32, u32) {
    (
        if s.width == 0 {
            1
        } else {
            s.width
        },
        if s.height == 0 {
            1
        } else {
            s.height
        },
    )
}

impl EditorApp {
    /// The check box of the torn edge.
    pub fn enable_edge(&mut self, on: bool)
        ensures
            final(self)@ == edge_put(
                old(self)@,
                if on {
                    Some(
                        match old(self)@.document.edge_effect {
                            Some(e) => e,
                            None => crate::editor::document::default_edge(),
                        },
                    )
                } else {
                    None
                },
            ),
    {
        let before = self.document.edge_effect;
        let after = if on {
            Some(
                match before {
                    Some(e) => e,
                    None => EdgeEffect::default(),
                },
            )
        } else {
            None
        };
        self.push_command(Command::SetEdgeEffect(SetEdgeEffect::new(before, after)));
    }

    /// A control of the torn edge; without a torn edge there is none.
    pub fn change_edge(&mut self, c: EdgeChange)
        ensures
            final(self)@ == match old(self)@.document.edge_effect {
                Some(e) => edge_put(old(self)@, Some(edge_changed(e, c))),
                None => old(self)@,
            },
    {
        match self.document.edge_effect {
            Some(e) => {
                let after = match c {
                    EdgeChange::Side(side) => EdgeEffect { edge: side, ..e },
                    EdgeChange::Depth(v) => EdgeEffect {
                        depth: v.clamp(Px { bits: BITS_1 }, Px { bits: BITS_80 }),
                        ..e
                    },
                    EdgeChange::Tooth(v) => EdgeEffect {
                        teeth: v.clamp(Px { bits: BITS_4 }, Px { bits: BITS_80 }),
                        ..e
                    },
                };
                self.push_command(
                    Command::SetEdgeEffect(SetEdgeEffect::new(Some(e), Some(after))),
                );
            },
            None => {},
        }
    }

    /// The check box of the border.
    pub fn enable_border(&mut self, on: bool)
        ensures
            final(self)@ == border_put(
                old(self)@,
                if on {
                    Some(
                        match old(self)@.document.border {
                            Some(b) => b,
                            None => crate::editor::document::default_border(),
                        },
                    )
                } else {
                    None
                },
            ),
    {
        let before = self.document.border;
        let after = if on {
            Some(
                match before {
                    Some(b) => b,
                    None => Border::default(),
                },
            )
        } else {
            None
        };
        self.push_command(Command::SetBorder(SetBorder::new(before, after)));
    }

    /// A control of the border; without a border there is none.
    pub fn change_border(&mut self, c: BorderChange)
        ensures
            final(self)@ == match old(self)@.document.border {
                Some(b) => border_put(old(self)@, Some(border_changed(b, c))),
                None => old(self)@,
            },
    {
        match self.document.border {
            Some(b) => {
                let after = match c {
                    BorderChange::Color(v) => Border { color: v, ..b },
                    BorderChange::Width(v) => Border {
                        width: v.clamp(Px { bits: BITS_0 }, Px { bits: BITS_40 }),
                        ..b
                    },
                    BorderChange::ShadowBlur(v) => Border {
                        shadow_radius: v.clamp(Px { bits: BITS_0 }, Px { bits: BITS_40 }),
                        ..b
                    },
                    BorderChange::ShadowDx(v) => Border {
                        shadow_offset: Point {
                            x: v.clamp(Px { bits: BITS_MINUS_20 }, Px { bits: BITS_20 }),
                            y: b.shadow_offset.y,
                        },
                        ..b
                    },
                    BorderChange::ShadowDy(v) => Border {
                        shadow_offset: Point {
                            x: b.shadow_offset.x,
                            y: v.clamp(Px { bits: BITS_MINUS_20 }, Px { bits: BITS_20 }),
                        },
                        ..b
                    },
                };
                self.push_command(Command::SetBorder(SetBorder::new(Some(b), Some(after))));
            },
            None => {},
        }
    }

    /// The width for export was set, held between 1 and the largest side; `follow` is the
    /// height that keeps the proportions.
    pub fn set_export_width(&mut self, width: i32, follow: u32)
        ensures
            final(self)@ == (AppView {
                export_size: ExportSize {
                    width: crate::settings::ui::bounded(
                        width as int,
                        1,
                        crate::editor::preset_panel::MOST_SIDE as int,
                    ) as u32,
                    height: if old(self)@.export_size.lock_aspect {
                        follow
                    } else {
                        old(self)@.export_size.height
                    },
                    ..old(self)@.export_size
                },
                ..old(self)@
            }),
    {
        self.export_size.width = set_side(width);
        if self.export_size.lock_aspect {
            self.export_size.height = follow;
        }
    }

    /// The height for export was set, held between 1 and the largest side; `follow` is the
    /// width that keeps the proportions.
    pub fn set_export_height(&mut self, height: i32, follow: u32)
        ensures
            final(self)@ == (AppView {
                export_size: ExportSize {
                    height: crate::settings::ui::bounded(
                        height as int,
                        1,
                        crate::editor::preset_panel::MOST_SIDE as int,
                    ) as u32,
                    width: if old(self)@.export_size.lock_aspect {
                        follow
                    } else {
                        old(self)@.export_size.width
                    },
                    ..old(self)@.export_size
                },
                ..old(self)@
            }),
    {
        self.export_size.height = set_side(height);
        if self.export_size.lock_aspect {
            self.export_size.width = follow;
        }
    }

    /// The size for export goes back to that of the base picture.
    pub fn reset_export_size(&mut self)
        ensures
            final(self)@ == (AppView {
                export_size: ExportSize {
                    width: old(self)@.document.base_width,
                    height: old(self)@.document.base_height,
                    ..old(self)@.export_size
                },
                ..old(self)@
            }),
    {
        self.export_size.width = self.document.base_width;
        self.export_size.height = self.document.base_height;
    }

    /// Puts another base picture into the document and forgets the history, whose
    /// places would not fit it. A picture that cannot be encoded changes nothing.
    pub fn replace_base(&mut self, img: &RgbaImage) -> (r: bool)
        requires
            img.wf(),
        ensures
            match crate::editor::document::png_of(*img) {
                Some(png) => r && final(self)@ == base_put(old(self)@, img.width, img.height, png),
                None => !r && final(self)@ == old(self)@,
            },
            crate::codec::is_ordinary(img) ==> r && crate::codec::reads_as(
                final(self)@.document.base_png,
                img,
            ),
    {
        match encode_png(img) {
            Some(png) => {
                self.document.base_png = png;
                self.document.base_width = img.width;
                self.document.base_height = img.height;
                self.export_size.width = img.width;
                self.export_size.height = img.height;
                self.dirty = true;
                self.history.clear();
                true
            },
            None => false,
        }
    }

    /// Turns the base picture by a quarter clockwise. The result is the picture that
    /// the document has now.
    pub fn rotate_base_cw(&mut self, base: RgbaImage) -> (r: RgbaImage)
        requires
            base.wf(),
        ensures
            ({
                ||| {
                    &&& turned_right(&base, &r)
                    &&& crate::editor::document::png_of(r) is Some
                    &&& final(self)@ == base_put(
                        old(self)@,
                        r.width,
                        r.height,
                        crate::editor::document::png_of(r)->Some_0,
                    )
                }
                ||| {
                    &&& r == base
                    &&& final(self)@ == old(self)@
                    &&& exists|t: RgbaImage|
                        #[trigger] turned_right(&base, &t)
                            && crate::editor::document::png_of(t) is None
                }
            }),
            crate::codec::is_ordinary(&base) ==> turned_right(&base, &r) && crate::codec::reads_as(
                final(self)@.document.base_png,
                &r,
            ),
    {
        let turned = rotate90(&base);
        assert(base.width * base.height == turned.width * turned.height) by (nonlinear_arith)
            requires
                base.width == turned.height,
                base.height == turned.width,
        ;
        assert(turned_right(&base, &turned));
        if self.replace_base(&turned) {
            turned
        } else {
            base
        }
    }

    /// Turns the base picture by a quarter counter-clockwise. The result is the
    /// picture that the document has now.
    pub fn rotate_base_ccw(&mut self, base: RgbaImage) -> (r: RgbaImage)
        requires
            base.wf(),
        ensures
            ({
                ||| {
                    &&& turned_left(&base, &r)
                    &&& crate::editor::document::png_of(r) is Some
                    &&& final(self)@ == base_put(
                        old(self)@,
                        r.width,
                        r.height,
                        crate::editor::document::png_of(r)->Some_0,
                    )
                }
                ||| {
                    &&& r == base
                    &&& final(self)@ == old(self)@
                    &&& exists|t: RgbaImage|
                        #[trigger] turned_left(&base, &t)
                            && crate::editor::document::png_of(t) is None
                }
            }),
            crate::codec::is_ordinary(&base) ==> turned_left(&base, &r) && crate::codec::reads_as(
                final(self)@.document.base_png,
                &r,
            ),
    {
        let turned = rotate270(&base);
        assert(base.width * base.height == turned.width * turned.height) by (nonlinear_arith)
            requires
                base.width == turned.height,
                base.height == turned.width,
        ;
        assert(turned_left(&base, &turned));
        if self.replace_base(&turned) {
            turned
        } else {
            base
        }
    }

    /// What is to be done with the flattened picture: nothing if it has the size for
    /// export, else the scaler is handed the picture and that size.
    pub fn export_step(&self, flat: RgbaImage) -> (r: ExportStep)
        ensures
            r == (if (flat.width, flat.height) == export_extent(self@.export_size) {
                ExportStep::AsIs(flat)
            } else {
                ExportStep::Scale {
                    picture: flat,
                    width: export_extent(self@.export_size).0,
                    height: export_extent(self@.export_size).1,
                }
            }),
    {
        let width: u32 = if self.export_size.width == 0 {
            1
        } else {
            self.export_size.width
        };
        let height: u32 = if self.export_size.height == 0 {
            1
        } else {
            self.export_size.height
        };
        if width == flat.width && height == flat.height {
            ExportStep::AsIs(flat)
        } else {
            ExportStep::Scale { picture: flat, width, height }
        }
    }

    /// Brings the flattened picture to the size for export. The colours of a picture
    /// that has to be scaled are not stated.
    pub fn apply_export_resize(&self, flat: RgbaImage) -> (r: RgbaImage)
        requires
            flat.wf(),
            4 * (export_extent(self@.export_size).0 * export_extent(self@.export_size).1)
                <= isize::MAX,
            16 * (flat.width * export_extent(self@.export_size).1) <= isize::MAX,
        ensures
            r.wf(),
            (r.width, r.height) == export_extent(self@.export_size),
            (flat.width, flat.height) == export_extent(self@.export_size) ==> r == flat,
    {
        match self.export_step(flat) {
            ExportStep::AsIs(picture) => picture,
            ExportStep::Scale { picture, width, height } => resize(&picture, width, height),
        }
    }

    /// The picture that is saved and copied: the base with the cursor on it, baked with
    /// the annotations and effects of the document, and brought to the size for export.
    /// What the annotations take from the picture has the cursor on it.
    pub fn export_picture<
        F: Fn(u32, u32, u32, u32) -> Option<(u32, u32)>,
        P: Fn(RgbaImage, &RgbaImage, &AnnotationNode, Part) -> RgbaImage,
        B: Fn(RgbaImage) -> RgbaImage,
    >(
        &self,
        base: RgbaImage,
        source: &F,
        paint: &P,
        depths: TornDepths,
        metrics: BorderMetrics,
        soften: &B,
    ) -> (r: RgbaImage)
        requires
            base.wf(),
            forall|w: u32, h: u32, x: u32, y: u32| #[trigger]
                call_requires(*source, (w, h, x, y)),
            forall|c: RgbaImage| c.wf() && c.same_size(&base) ==> #[trigger] crate::editor::flatten::is_painter(*paint, c),
            crate::editor::flatten::keeps_size(*soften),
            crate::editor::flatten::effects_fit(
                &base,
                paired(self@.document.edge_effect, depths),
                paired(self@.document.border, metrics),
            ),
            exportable(self@, &base, metrics),
        ensures
            r.wf(),
            (r.width, r.height) == export_extent(self@.export_size),
            exists|marked: RgbaImage, baked: RgbaImage|
                #![trigger crate::editor::flatten::cursor_composed(&base, self@.document.cursor, *source, &marked),
                    same_size_or_scaled(self@.export_size, &baked, &r)]
                marked.wf() && marked.same_size(&base) && crate::editor::flatten::cursor_composed(
                    &base,
                    self@.document.cursor,
                    *source,
                    &marked,
                ) && crate::editor::flatten::is_baked(
                    *paint,
                    &marked,
                    self.document.annotations@,
                    paired(self@.document.edge_effect, depths),
                    paired(self@.document.border, metrics),
                    *soften,
                    &baked,
                ) && same_size_or_scaled(self@.export_size, &baked, &r),
    {
        let marked = compose_cursor(base, &self.document.cursor, source);
        assert(crate::editor::flatten::is_painter(*paint, marked));
        let edge = match self.document.edge_effect {
            Some(e) => Some((e, depths)),
            None => None,
        };
        let border = match self.document.border {
            Some(b) => Some((b, metrics)),
            None => None,
        };
        assert(edge == paired(self@.document.edge_effect, depths));
        assert(border == paired(self@.document.border, metrics));
        assert(forall|e: crate::editor::document::Edge| #[trigger]
            crate::editor::rasterize::edge_length(&marked, e)
                == crate::editor::rasterize::edge_length(&base, e));
        let baked = bake(&marked, &self.document.annotations, paint, edge, border, soften);
        let ghost full = baked;
        let out = self.apply_export_resize(baked);
        assert(same_size_or_scaled(self@.export_size, &full, &out));
        out
    }
}

/// An effect that is switched on, with what was measured for it.
pub open spec fn paired<A, B>(effect: Option<A>, measured: B) -> Option<(A, B)> {
    match effect {
        Some(e) => Some((e, measured)),
        None => None,
    }
}

/// `after` has the size for export. It is `before` itself if that has the size too.
pub open spec fn same_size_or_scaled(
    size: ExportSize,
    before: &RgbaImage,
    after: &RgbaImage,
) -> bool {
    &&& (after.width, after.height) == export_extent(size)
    &&& (before.width, before.height) == export_extent(size) ==> after == before
}

/// Whether the pictures on the way to the exported one can be held.
pub open spec fn exportable(s: AppView, base: &RgbaImage, metrics: BorderMetrics) -> bool {
    let (w, h) = export_extent(s.export_size);
    &&& 4 * (w * h) <= isize::MAX
    &&& 16 * (crate::editor::flatten::bordered_extent(
        paired(s.document.border, metrics),
        base.width as int,
        base.height as int,
    ).0 * h) <= isize::MAX
}

// ---------------------------------------------------------------------------
// The canvas
// ---------------------------------------------------------------------------

/// When an annotation is painted. Blurred regions, loupes and banners are painted
/// from cached pictures, after everything else.
#[derive(Debug, Clone, Copy, PartialEq, Eq, Structural)]
pub enum Layer {
    Plain,
    Blur,
    Magnify,
    Info,
}

/// The layer of an annotation.
pub open spec fn layer_of(n: NodeView) -> Layer {
    match n {
        NodeView::Blur { .. } => Layer::Blur,
        NodeView::Magnify { .. } => Layer::Magnify,
        NodeView::CaptureInfo { .. } => Layer::Info,
        _ => Layer::Plain,
    }
}

/// The places of the annotations of a layer, bottom of the stack first; the one
/// whose text is being typed is left out.
pub open spec fn layer_places(s: Seq<NodeView>, hidden: Option<NodeId>, layer: Layer) -> Seq<usize>
    decreases s.len(),
{
    if s.len() == 0 {
        Seq::empty()
    } else {
        let head = layer_places(s.drop_last(), hidden, layer);
        if layer_of(s.last()) == layer && hidden != Some(s.last().id()) {
            head.push((s.len() - 1) as usize)
        } else {
            head
        }
    }
}

/// The order in which annotations are painted.
pub open spec fn painted(s: Seq<NodeView>, hidden: Option<NodeId>) -> Seq<usize> {
    layer_places(s, hidden, Layer::Plain) + layer_places(s, hidden, Layer::Blur) + layer_places(
        s,
        hidden,
        Layer::Magnify,
    ) + layer_places(s, hidden, Layer::Info)
}

fn push_layer(
    out: &mut Vec<usize>,
    annotations: &Vec<AnnotationNode>,
    hidden: Option<NodeId>,
    layer: Layer,
)
    ensures
        final(out)@ == old(out)@ + layer_places(
            crate::editor::document::node_views(annotations@),
            hidden,
            layer,
        ),
{
    let ghost all = crate::editor::document::node_views(annotations@);
    let ghost before = out@;
    let mut i: usize = 0;
    assert(all.take(0) =~= Seq::empty());
    assert(before + Seq::<usize>::empty() =~= before);
    while i < annotations.len()
        invariant
            i <= annotations@.len(),
            all == crate::editor::document::node_views(annotations@),
            out@ == before + layer_places(all.take(i as int), hidden, layer),
        decreases annotations@.len() - i,
    {
        let n = &annotations[i];
        assert(all.take(i + 1).drop_last() =~= all.take(i as int));
        assert(all.take(i + 1).last() == n@);
        let of = match n {
            AnnotationNode::Blur { .. } => Layer::Blur,
            AnnotationNode::Magnify { .. } => Layer::Magnify,
            AnnotationNode::CaptureInfo { .. } => Layer::Info,
            _ => Layer::Plain,
        };
        if of == layer && hidden != Some(n.id()) {
            out.push(i);
            assert(before + layer_places(all.take(i as int), hidden, layer).push(i) =~= (before
                + layer_places(all.take(i as int), hidden, layer)).push(i));
        }
        i += 1;
    }
    assert(all.take(i as int) =~= all);
}

/// Every annotation that is not hidden is painted, and a hidden one is not.
pub proof fn law_everything_is_painted(s: Seq<NodeView>, hidden: Option<NodeId>, i: usize)
    requires
        i < s.len(),
        s.len() <= usize::MAX,
    ensures
        painted(s, hidden).contains(i) <==> hidden != Some(s[i as int].id()),
{
    lemma_layer_places(s, hidden, Layer::Plain, i);
    lemma_layer_places(s, hidden, Layer::Blur, i);
    lemma_layer_places(s, hidden, Layer::Magnify, i);
    lemma_layer_places(s, hidden, Layer::Info, i);
    let a = layer_places(s, hidden, Layer::Plain);
    let b = layer_places(s, hidden, Layer::Blur);
    let c = layer_places(s, hidden, Layer::Magnify);
    let d = layer_places(s, hidden, Layer::Info);
    let all = painted(s, hidden);
    if a.contains(i) {
        let k = choose|k: int| 0 <= k < a.len() && a[k] == i;
        assert(all[k] == i);
    }
    if b.contains(i) {
        let k = choose|k: int| 0 <= k < b.len() && b[k] == i;
        assert(all[a.len() + k] == i);
    }
    if c.contains(i) {
        let k = choose|k: int| 0 <= k < c.len() && c[k] == i;
        assert(all[a.len() + b.len() + k] == i);
    }
    if d.contains(i) {
        let k = choose|k: int| 0 <= k < d.len() && d[k] == i;
        assert(all[a.len() + b.len() + c.len() + k] == i);
    }
    if all.contains(i) {
        let k = choose|k: int| 0 <= k < all.len() && all[k] == i;
        if k < a.len() {
            assert(a[k] == i);
        } else if k < a.len() + b.len() {
            assert(b[k - a.len()] == i);
        } else if k < a.len() + b.len() + c.len() {
            assert(c[k - a.len() - b.len()] == i);
        } else {
            assert(d[k - a.len() - b.len() - c.len()] == i);
        }
    }
}

proof fn lemma_layer_places(s: Seq<NodeView>, hidden: Option<NodeId>, layer: Layer, i: usize)
    requires
        s.len() <= usize::MAX,
    ensures
        layer_places(s, hidden, layer).contains(i) <==> i < s.len() && layer_of(s[i as int])
            == layer && hidden != Some(s[i as int].id()),
    decreases s.len(),
{
    if s.len() > 0 {
        let most = s.drop_last();
        lemma_layer_places(most, hidden, layer, i);
        let head = layer_places(most, hidden, layer);
        let all = layer_places(s, hidden, layer);
        if head.contains(i) {
            let k = choose|k: int| 0 <= k < head.len() && head[k] == i;
            assert(all[k] == i);
        }
        if i == s.len() - 1 && layer_of(s.last()) == layer && hidden != Some(s.last().id()) {
            assert(all[head.len() as int] == i);
        }
        if all.contains(i) && !head.contains(i) {
            let k = choose|k: int| 0 <= k < all.len() && all[k] == i;
            if k < head.len() {
                assert(head[k] == i);
            }
        }
    }
}

/// What is shown of a drag that draws.
#[derive(Debug, Clone, Copy, PartialEq, Eq, Structural)]
pub enum DragHint {
    Nothing,
    Arrow,
    Outline,
    /// A translucent box with an outline.
    Tinted,
    Ellipse,
    /// An outline with round corners.
    Rounded,
}

/// What is shown of a drag with a tool.
pub fn drag_hint(tool: Tool) -> (r: DragHint)
    ensures
        r == match tool {
            Tool::Arrow => DragHint::Arrow,
            Tool::Rect | Tool::Magnify => DragHint::Outline,
            Tool::Blur => DragHint::Tinted,
            Tool::Ellipse => DragHint::Ellipse,
            Tool::Callout => DragHint::Rounded,
            _ => DragHint::Nothing,
        },
{
    match tool {
        Tool::Arrow => DragHint::Arrow,
        Tool::Rect | Tool::Magnify => DragHint::Outline,
        Tool::Blur => DragHint::Tinted,
        Tool::Ellipse => DragHint::Ellipse,
        Tool::Callout => DragHint::Rounded,
        _ => DragHint::Nothing,
    }
}

impl EditorApp {
    /// The order in which the annotations are painted.
    pub fn paint_order(&self) -> (r: Vec<usize>)
        ensures
            r@ == painted(
                self@.document.annotations,
                match self@.pending_text {
                    Some(t) => t.editing_id,
                    None => None,
                },
            ),
    {
        let hidden = match &self.pending_text {
            Some(t) => t.editing_id,
            None => None,
        };
        let mut out: Vec<usize> = Vec::new();
        push_layer(&mut out, &self.document.annotations, hidden, Layer::Plain);
        assert(out@ =~= layer_places(self@.document.annotations, hidden, Layer::Plain));
        push_layer(&mut out, &self.document.annotations, hidden, Layer::Blur);
        push_layer(&mut out, &self.document.annotations, hidden, Layer::Magnify);
        push_layer(&mut out, &self.document.annotations, hidden, Layer::Info);
        out
    }
}

// ---------------------------------------------------------------------------
// Picking
// ---------------------------------------------------------------------------

/// Whether a click hits an annotation: an arrow or a step by `near`, anything else
/// by its box, whose corners need not be in order; a banner cannot be hit.
pub open spec fn picks(n: NodeView, p: Point, near: bool) -> bool {
    match n {
        NodeView::Arrow { .. } | NodeView::Step { .. } => near,
        NodeView::CaptureInfo { .. } => false,
        _ => match crate::editor::tools::selection::click_box(n) {
            Some(b) => b.ordered().holds(p),
            None => false,
        },
    }
}

/// The topmost annotation that a click hits.
pub open spec fn top_pick(s: Seq<NodeView>, p: Point, near: Seq<bool>) -> Option<NodeId>
    decreases s.len(),
{
    if s.len() == 0 {
        None
    } else if picks(s.last(), p, near[s.len() - 1]) {
        Some(s.last().id())
    } else {
        top_pick(s.drop_last(), p, near)
    }
}

/// What a click hits: an annotation, or the cursor below them.
pub open spec fn picked(
    d: DocumentView,
    p: Point,
    near: Seq<bool>,
    cursor_box: Bounds,
) -> Option<SelectionTarget> {
    match top_pick(d.annotations, p, near) {
        Some(id) => Some(SelectionTarget::Annotation(id)),
        None => if d.cursor is Some && cursor_box.ordered().holds(p) {
            Some(SelectionTarget::Cursor)
        } else {
            None
        },
    }
}

/// What the pointer is near of the selected thing.
#[derive(Debug, Clone, Copy, PartialEq, Eq, Structural)]
pub struct PickHints {
    pub arrow_start: bool,
    pub arrow_end: bool,
    pub arrow_mid: bool,
    pub tail: bool,
    pub handles: NearHandles,
    /// The box round a step's circle.
    pub circle: Bounds,
    /// The box of the cursor layer.
    pub cursor_box: Bounds,
}

/// The handle of a box that is near, in the order of the handles.
pub open spec fn box_handle(n: NearHandles) -> Option<Handle> {
    if n.nw {
        Some(Handle::NW)
    } else if n.n {
        Some(Handle::N)
    } else if n.ne {
        Some(Handle::NE)
    } else if n.w {
        Some(Handle::W)
    } else if n.e {
        Some(Handle::E)
    } else if n.sw {
        Some(Handle::SW)
    } else if n.s {
        Some(Handle::S)
    } else if n.se {
        Some(Handle::SE)
    } else {
        None
    }
}

fn near_handle(n: NearHandles) -> (r: Option<Handle>)
    ensures
        r == box_handle(n),
{
    if n.nw {
        Some(Handle::NW)
    } else if n.n {
        Some(Handle::N)
    } else if n.ne {
        Some(Handle::NE)
    } else if n.w {
        Some(Handle::W)
    } else if n.e {
        Some(Handle::E)
    } else if n.sw {
        Some(Handle::SW)
    } else if n.s {
        Some(Handle::S)
    } else if n.se {
        Some(Handle::SE)
    } else {
        None
    }
}

/// The handle that a press grabs: the ends of an arrow before its middle; the
/// tail of a balloon and the source of a loupe before the handles of the box, and
/// those before the box itself.
pub open spec fn handle_for(
    bbox: Bounds,
    source: Option<Bounds>,
    is_arrow: bool,
    is_callout: bool,
    p: Point,
    h: PickHints,
) -> Option<Handle> {
    if is_arrow {
        if h.arrow_start {
            Some(Handle::ArrowStart)
        } else if h.arrow_end {
            Some(Handle::ArrowEnd)
        } else if h.arrow_mid {
            Some(Handle::Body)
        } else {
            None
        }
    } else if is_callout && h.tail {
        Some(Handle::CalloutTail)
    } else if source is Some && source->Some_0.ordered().holds(p) {
        Some(Handle::MagnifySource)
    } else if box_handle(h.handles) is Some {
        box_handle(h.handles)
    } else if bbox.ordered().holds(p) {
        Some(Handle::Body)
    } else {
        None
    }
}

/// The tip of a balloon's tail.
pub open spec fn tail_of(n: NodeView) -> Option<Point> {
    match n {
        NodeView::Callout { tail, .. } => Some(tail),
        _ => None,
    }
}

/// The region that a loupe shows.
pub open spec fn source_of(n: NodeView) -> Option<Bounds> {
    match n {
        NodeView::Magnify { source_rect, .. } => Some(source_rect),
        _ => None,
    }
}

/// The box in which a drag starts; the start and the end of an arrow.
pub open spec fn drag_box(n: NodeView, bbox: Bounds) -> Bounds {
    match n {
        NodeView::Arrow { start, end, .. } => Bounds {
            min_x: start.x,
            min_y: start.y,
            max_x: end.x,
            max_y: end.y,
        },
        _ => bbox,
    }
}

/// The handle that a press at `p` grabs of what is selected.
pub open spec fn grabbed(
    d: DocumentView,
    sel: SelectionTarget,
    p: Point,
    h: PickHints,
) -> Option<ActiveView> {
    match sel {
        SelectionTarget::Annotation(id) => match crate::editor::session::node_with(d, id) {
            Some(n) => match crate::editor::tools::selection::box_of(n, h.circle) {
                Some(b) => match handle_for(b, source_of(n), n is Arrow, n is Callout, p, h) {
                    Some(handle) => Some(
                        ActiveView {
                            target: sel,
                            handle,
                            start_rect: drag_box(n, b),
                            start_tail: tail_of(n),
                            start_source: source_of(n),
                            before: Some(n),
                            before_cursor: None,
                            anchor: p,
                        },
                    ),
                    None => None,
                },
                None => None,
            },
            None => None,
        },
        SelectionTarget::Cursor => match d.cursor {
            Some(c) => match handle_for(h.cursor_box, None, false, false, p, h) {
                Some(handle) => Some(
                    ActiveView {
                        target: sel,
                        handle,
                        start_rect: h.cursor_box,
                        start_tail: None,
                        start_source: None,
                        before: None,
                        before_cursor: Some((c.x, c.y, c.width, c.height)),
                        anchor: p,
                    },
                ),
                None => None,
            },
            None => None,
        },
    }
}

/// The window after a press with the Select tool: without a selection, what is
/// under the pointer is selected first.
pub open spec fn pressed(s: AppView, p: Point, near: Seq<bool>, h: PickHints) -> AppView {
    let selection = match s.selection {
        Some(sel) => Some(sel),
        None => picked(s.document, p, near, h.cursor_box),
    };
    AppView {
        selection,
        active_handle: match selection {
            Some(sel) => grabbed(s.document, sel, p, h),
            None => None,
        },
        ..s
    }
}

impl EditorApp {
    /// What a click hits: the topmost annotation, or the cursor below them.
    pub fn pick_target(&self, p: Point, near: &[bool], cursor_box: Bounds) -> (r: Option<
        SelectionTarget,
    >)
        requires
            near@.len() == self@.document.annotations.len(),
        ensures
            r == picked(self@.document, p, near@, cursor_box),
    {
        let ghost all = self@.document.annotations;
        let mut i: usize = self.document.annotations.len();
        assert(all.take(i as int) =~= all);
        while i > 0
            invariant
                i <= self.document.annotations@.len(),
                near@.len() == self.document.annotations@.len(),
                all == self@.document.annotations,
                top_pick(all, p, near@) == top_pick(all.take(i as int), p, near@),
            decreases i,
        {
            let ghost front = all.take(i as int);
            let n = &self.document.annotations[i - 1];
            assert(front.drop_last() =~= all.take(i - 1));
            assert(front.last() == n@);
            let hit = match n {
                AnnotationNode::Arrow { .. } | AnnotationNode::Step { .. } => near[i - 1],
                AnnotationNode::CaptureInfo { .. } => false,
                _ => match crate::editor::tools::selection::rect_of(n) {
                    Some(b) => crate::editor::tools::selection::hit_bbox(p, b),
                    None => false,
                },
            };
            if hit {
                return Some(SelectionTarget::Annotation(n.id()));
            }
            i -= 1;
        }
        match &self.document.cursor {
            Some(_) => if crate::editor::tools::selection::hit_bbox(p, cursor_box) {
                Some(SelectionTarget::Cursor)
            } else {
                None
            },
            None => None,
        }
    }

    /// The handle that a press grabs of what is selected.
    fn grab(&self, sel: SelectionTarget, p: Point, h: PickHints) -> (r: Option<ActiveHandle>)
        ensures
            active_view(r) == grabbed(self@.document, sel, p, h),
    {
        match sel {
            SelectionTarget::Annotation(id) => {
                let found = self.node(id);
                match found {
                    Some(n) => match crate::editor::tools::selection::bounds_of_node(&n, h.circle) {
                        Some(b) => {
                            let tail = match &n {
                                AnnotationNode::Callout { tail, .. } => Some(*tail),
                                _ => None,
                            };
                            let source = match &n {
                                AnnotationNode::Magnify { source_rect, .. } => Some(*source_rect),
                                _ => None,
                            };
                            let is_arrow = match &n {
                                AnnotationNode::Arrow { .. } => true,
                                _ => false,
                            };
                            let start_rect = match &n {
                                AnnotationNode::Arrow { start, end, .. } => Bounds {
                                    min_x: start.x,
                                    min_y: start.y,
                                    max_x: end.x,
                                    max_y: end.y,
                                },
                                _ => b,
                            };
                            match choose_handle(b, source, is_arrow, tail.is_some(), p, h) {
                                Some(handle) => Some(
                                    ActiveHandle {
                                        target: sel,
                                        handle,
                                        start_rect,
                                        start_tail: tail,
                                        start_source: source,
                                        before: Some(n),
                                        before_cursor: None,
                                        anchor: p,
                                    },
                                ),
                                None => None,
                            }
                        },
                        None => None,
                    },
                    None => None,
                }
            },
            SelectionTarget::Cursor => match &self.document.cursor {
                Some(c) => match choose_handle(h.cursor_box, None, false, false, p, h) {
                    Some(handle) => Some(
                        ActiveHandle {
                            target: sel,
                            handle,
                            start_rect: h.cursor_box,
                            start_tail: None,
                            start_source: None,
                            before: None,
                            before_cursor: Some((c.x, c.y, c.width, c.height)),
                            anchor: p,
                        },
                    ),
                    None => None,
                },
                None => None,
            },
        }
    }

    /// A press with the Select tool.
    pub fn pick_handle(&mut self, p: Point, near: &[bool], h: PickHints)
        requires
            near@.len() == old(self)@.document.annotations.len(),
        ensures
            final(self)@ == pressed(old(self)@, p, near@, h),
    {
        if self.selection.is_none() {
            self.selection = self.pick_target(p, near, h.cursor_box);
        }
        let active = match self.selection {
            Some(sel) => self.grab(sel, p, h),
            None => None,
        };
        self.active_handle = active;
    }
}

fn choose_handle(
    bbox: Bounds,
    source: Option<Bounds>,
    is_arrow: bool,
    is_callout: bool,
    p: Point,
    h: PickHints,
) -> (r: Option<Handle>)
    ensures
        r == handle_for(bbox, source, is_arrow, is_callout, p, h),
{
    if is_arrow {
        return if h.arrow_start {
            Some(Handle::ArrowStart)
        } else if h.arrow_end {
            Some(Handle::ArrowEnd)
        } else if h.arrow_mid {
            Some(Handle::Body)
        } else {
            None
        };
    }
    if is_callout && h.tail {
        return Some(Handle::CalloutTail);
    }
    match source {
        Some(src) => {
            if crate::editor::tools::selection::hit_bbox(p, src) {
                return Some(Handle::MagnifySource);
            }
        },
        None => {},
    }
    match near_handle(h.handles) {
        Some(handle) => {
            return Some(handle);
        },
        None => {},
    }
    if crate::editor::tools::selection::hit_bbox(p, bbox) {
        Some(Handle::Body)
    } else {
        None
    }
}

// ---------------------------------------------------------------------------
// Dragging
// ---------------------------------------------------------------------------

/// `after` is `node` while a handle is dragged: each part is where it was when the
/// drag began, moved by `shift`. `circle` gives the middle of a box and half its width
/// and height; a step fills its box, and its radius does not go below 4.
pub open spec fn is_dragged<F: Fn(Point) -> Point, C: Fn(Bounds) -> (Point, Px, Px)>(
    shift: F,
    a: ActiveView,
    circle: C,
    node: NodeView,
    after: NodeView,
) -> bool {
    match (node, after) {
        (NodeView::Arrow { .. }, NodeView::Arrow { start: s2, end: e2, .. }) => {
            &&& after == (NodeView::Arrow {
                id: node->Arrow_id,
                start: s2,
                end: e2,
                color: node->Arrow_color,
                thickness: node->Arrow_thickness,
                shadow: node->Arrow_shadow,
                line_style: node->Arrow_line_style,
                head_style: node->Arrow_head_style,
                control: node->Arrow_control,
            })
            &&& if a.handle == Handle::ArrowStart || a.handle == Handle::Body {
                crate::editor::tools::selection::shifts(shift, low(a.start_rect), s2)
            } else {
                s2 == node->Arrow_start
            }
            &&& if a.handle == Handle::ArrowEnd || a.handle == Handle::Body {
                crate::editor::tools::selection::shifts(shift, high(a.start_rect), e2)
            } else {
                e2 == node->Arrow_end
            }
        },
        (NodeView::Text { rect, .. }, NodeView::Text { rect: r2, .. }) => {
            &&& after == crate::editor::tools::selection::with_rect(node, r2)
            &&& if a.handle == Handle::Body {
                crate::editor::tools::selection::shifts_box(shift, a.start_rect, r2)
            } else {
                r2 == rect
            }
        },
        (NodeView::Callout { rect, tail, .. }, NodeView::Callout { tail: t2, .. }) => {
            if a.handle == Handle::CalloutTail {
                &&& after == with_tail(node, t2)
                &&& crate::editor::tools::selection::shifts(
                    shift,
                    match a.start_tail {
                        Some(t) => t,
                        None => tail,
                    },
                    t2,
                )
            } else {
                is_box_dragged(shift, a, node, after)
            }
        },
        (NodeView::Step { radius, .. }, NodeView::Step { .. }) => exists|
            moved: Bounds,
            c: (Point, Px, Px),
        |
            #![trigger
                crate::editor::tools::selection::shifts_box(shift, a.start_rect, moved),
                step_radius(c.1, c.2)]
            crate::editor::tools::selection::shifts_box(shift, a.start_rect, moved) && call_ensures(
                circle,
                (crate::editor::tools::selection::dragged(a.start_rect, moved, a.handle),),
                c,
            ) && after == (NodeView::Step {
                id: node->Step_id,
                center: c.0,
                radius: if a.handle == Handle::Body {
                    radius
                } else {
                    step_radius(c.1, c.2)
                },
                number: node->Step_number,
                fill: node->Step_fill,
                text_color: node->Step_text_color,
            }),
        (
            NodeView::Magnify { source_rect, .. },
            NodeView::Magnify { source_rect: s2, .. },
        ) => {
            if a.handle == Handle::MagnifySource {
                &&& after == with_source(node, s2)
                &&& crate::editor::tools::selection::shifts_box(
                    shift,
                    match a.start_source {
                        Some(b) => b,
                        None => source_rect,
                    },
                    s2,
                )
            } else {
                is_box_dragged(shift, a, node, after)
            }
        },
        (NodeView::CaptureInfo { .. }, _) => after == node,
        (NodeView::Shape { .. }, _) => is_box_dragged(shift, a, node, after),
        (NodeView::Stamp { .. }, _) => is_box_dragged(shift, a, node, after),
        (NodeView::Blur { .. }, _) => is_box_dragged(shift, a, node, after),
        _ => false,
    }
}

/// The radius of a step whose box is so wide and high from its middle: the larger of the
/// two, and at least 4.
pub open spec fn step_radius(half_width: Px, half_height: Px) -> Px {
    half_width.larger(half_height).larger(Px { bits: BITS_4 })
}

/// The first corner of a box.
pub open spec fn low(b: Bounds) -> Point {
    Point { x: b.min_x, y: b.min_y }
}

/// The second corner of a box.
pub open spec fn high(b: Bounds) -> Point {
    Point { x: b.max_x, y: b.max_y }
}

/// The box of `node` is dragged by its handle.
pub open spec fn is_box_dragged<F: Fn(Point) -> Point>(
    shift: F,
    a: ActiveView,
    node: NodeView,
    after: NodeView,
) -> bool {
    exists|moved: Bounds|
        #[trigger] crate::editor::tools::selection::shifts_box(shift, a.start_rect, moved)
            && after == crate::editor::tools::selection::with_rect(
            node,
            crate::editor::tools::selection::dragged(a.start_rect, moved, a.handle),
        )
}

/// A balloon with another tail.
pub open spec fn with_tail(n: NodeView, t: Point) -> NodeView {
    match n {
        NodeView::Callout {
            id,
            rect,
            tail: _,
            text,
            fill,
            stroke,
            stroke_width,
            text_color,
            text_size,
        } => NodeView::Callout {
            id,
            rect,
            tail: t,
            text,
            fill,
            stroke,
            stroke_width,
            text_color,
            text_size,
        },
        _ => n,
    }
}

/// A loupe that shows another region.
pub open spec fn with_source(n: NodeView, b: Bounds) -> NodeView {
    match n {
        NodeView::Magnify { id, source_rect: _, target_rect, border, border_width, circular } =>
        NodeView::Magnify { id, source_rect: b, target_rect, border, border_width, circular },
        _ => n,
    }
}

fn drag_box_to<F: Fn(Point) -> Point>(a: &ActiveHandle, shift: &F) -> (r: Bounds)
    requires
        forall|p: Point| call_requires(*shift, (p,)),
    ensures
        exists|moved: Bounds|
            #[trigger] crate::editor::tools::selection::shifts_box(*shift, a@.start_rect, moved)
                && r == crate::editor::tools::selection::dragged(a@.start_rect, moved, a@.handle),
{
    let moved = crate::editor::tools::selection::shift_box(a.start_rect, shift);
    assert(crate::editor::tools::selection::shifts_box(*shift, a@.start_rect, moved));
    crate::editor::tools::selection::drag_rect(a.start_rect, moved, a.handle)
}

/// What an annotation looks like while a handle of it is dragged.
pub fn apply_drag_to_node<F: Fn(Point) -> Point, C: Fn(Bounds) -> (Point, Px, Px)>(
    node: &AnnotationNode,
    a: &ActiveHandle,
    shift: &F,
    circle: &C,
) -> (r: AnnotationNode)
    requires
        forall|p: Point| call_requires(*shift, (p,)),
        forall|b: Bounds| call_requires(*circle, (b,)),
    ensures
        is_dragged(*shift, a@, *circle, node@, r@),
{
    let mut r = node.clone();
    match &mut r {
        AnnotationNode::Arrow { start, end, .. } => {
            if a.handle == Handle::ArrowStart || a.handle == Handle::Body {
                *start = shift(Point { x: a.start_rect.min_x, y: a.start_rect.min_y });
            }
            if a.handle == Handle::ArrowEnd || a.handle == Handle::Body {
                *end = shift(Point { x: a.start_rect.max_x, y: a.start_rect.max_y });
            }
        },
        AnnotationNode::Text { rect, .. } => {
            if a.handle == Handle::Body {
                *rect = crate::editor::tools::selection::shift_box(a.start_rect, shift);
            }
        },
        AnnotationNode::Callout { rect, tail, .. } => {
            if a.handle == Handle::CalloutTail {
                *tail = shift(
                    match a.start_tail {
                        Some(t) => t,
                        None => *tail,
                    },
                );
            } else {
                *rect = drag_box_to(a, shift);
            }
        },
        AnnotationNode::Shape { rect, .. } => {
            *rect = drag_box_to(a, shift);
        },
        AnnotationNode::Stamp { rect, .. } => {
            *rect = drag_box_to(a, shift);
        },
        AnnotationNode::Blur { rect, .. } => {
            *rect = drag_box_to(a, shift);
        },
        AnnotationNode::CaptureInfo { .. } => {},
        AnnotationNode::Step { center, radius, .. } => {
            let moved = crate::editor::tools::selection::shift_box(a.start_rect, shift);
            let now = crate::editor::tools::selection::drag_rect(a.start_rect, moved, a.handle);
            let c = circle(now);
            let ghost filled = step_radius(c.1, c.2);
            assert(crate::editor::tools::selection::shifts_box(*shift, a@.start_rect, moved));
            *center = c.0;
            if a.handle != Handle::Body {
                *radius = c.1.max(c.2).max(Px { bits: BITS_4 });
            }
        },
        AnnotationNode::Magnify { source_rect, target_rect, .. } => {
            if a.handle == Handle::MagnifySource {
                *source_rect = crate::editor::tools::selection::shift_box(
                    match a.start_source {
                        Some(b) => b,
                        None => *source_rect,
                    },
                    shift,
                );
            } else {
                *target_rect = drag_box_to(a, shift);
            }
        },
    }
    r
}

/// Dragging a handle keeps an annotation's identity.
pub proof fn law_drag_keeps_identity<F: Fn(Point) -> Point, C: Fn(Bounds) -> (Point, Px, Px)>(
    shift: F,
    a: ActiveView,
    circle: C,
    node: NodeView,
    after: NodeView,
)
    requires
        is_dragged(shift, a, circle, node, after),
    ensures
        after.id() == node.id(),
{
}

/// The document with the cursor layer elsewhere, past the history.
pub open spec fn cursor_put(d: DocumentView, p: Placement) -> DocumentView {
    match d.cursor {
        Some(c) => DocumentView { cursor: Some(crate::editor::commands::placed(c, p)), ..d },
        None => d,
    }
}

/// `place` is where the dragged cursor layer is now: its box, dragged from where it was
/// when the drag began, rounded to whole pixels and held at its least size.
pub open spec fn is_cursor_dragged<
    F: Fn(Point) -> Point,
    G: Fn(Bounds) -> (i32, i32, u32, u32),
>(shift: F, round: G, a: ActiveView, place: Placement) -> bool {
    exists|moved: Bounds, whole: Placement|
        #![trigger
            crate::editor::tools::selection::shifts_box(shift, a.start_rect, moved),
            crate::editor::tools::cursor_edit::rect_applied(whole)]
        crate::editor::tools::selection::shifts_box(shift, a.start_rect, moved) && call_ensures(
            round,
            (crate::editor::tools::selection::dragged(a.start_rect, moved, a.handle),),
            whole,
        ) && place == crate::editor::tools::cursor_edit::rect_applied(whole)
}

/// `live` and `cursor` are what is dragged, as it is now: the selected annotation, or
/// the cursor layer. What has left the document meanwhile is not dragged.
pub open spec fn is_in_hand<
    F: Fn(Point) -> Point,
    C: Fn(Bounds) -> (Point, Px, Px),
    G: Fn(Bounds) -> (i32, i32, u32, u32),
>(
    s: AppView,
    shift: F,
    circle: C,
    round: G,
    live: Option<NodeView>,
    cursor: Option<Placement>,
) -> bool {
    match s.active_handle {
        Some(a) => match a.target {
            SelectionTarget::Annotation(id) => {
                &&& cursor is None
                &&& match crate::editor::session::node_with(s.document, id) {
                    Some(n) => live is Some && is_dragged(shift, a, circle, n, live->Some_0),
                    None => live is None,
                }
            },
            SelectionTarget::Cursor => {
                &&& live is None
                &&& match s.document.cursor {
                    Some(_) => cursor is Some && is_cursor_dragged(
                        shift,
                        round,
                        a,
                        cursor->Some_0,
                    ),
                    None => cursor is None,
                }
            },
        },
        None => live is None && cursor is None,
    }
}

/// The window while a handle is dragged: what is dragged follows the pointer.
pub open spec fn dragged_along(
    s: AppView,
    live: Option<NodeView>,
    cursor: Option<Placement>,
) -> AppView {
    match s.active_handle {
        Some(a) => match a.target {
            SelectionTarget::Annotation(id) => match live {
                Some(n) => AppView {
                    document: crate::editor::session::replaced(s.document, id, n),
                    ..s
                },
                None => s,
            },
            SelectionTarget::Cursor => match cursor {
                Some(p) => AppView { document: cursor_put(s.document, p), ..s },
                None => s,
            },
        },
        None => s,
    }
}

/// The window when the dragged handle is let go: what has changed since the drag
/// began is put back and changed through the history, as one command.
pub open spec fn let_go(s: AppView) -> AppView {
    let s1 = AppView { active_handle: None, ..s };
    match s.active_handle {
        Some(a) => match a.target {
            SelectionTarget::Annotation(id) => match (
                a.before,
                crate::editor::session::node_with(s.document, id),
            ) {
                (Some(before), Some(after)) => if before != after {
                    commanded(
                        AppView {
                            document: crate::editor::session::replaced(s.document, id, before),
                            ..s1
                        },
                        crate::editor::session::changing(before, after),
                    )
                } else {
                    s1
                },
                _ => s1,
            },
            SelectionTarget::Cursor => match (a.before_cursor, s.document.cursor) {
                (Some(before), Some(c)) => {
                    let after = (c.x, c.y, c.width, c.height);
                    if before != after {
                        commanded(
                            AppView { document: cursor_put(s.document, before), ..s1 },
                            CommandView::UpdateCursor { before: Some(before), after: Some(after) },
                        )
                    } else {
                        s1
                    }
                },
                _ => s1,
            },
        },
        None => s1,
    }
}

/// Whether a tool draws by a drag.
pub open spec fn draws_by_drag(tool: Tool) -> bool {
    tool == Tool::Arrow || tool == Tool::Callout || tool == Tool::Rect || tool == Tool::Ellipse
        || tool == Tool::Magnify || tool == Tool::Blur
}

/// The annotation that a drag makes with the knobs as they are. `other` is where a
/// loupe shows its picture, `tail` where a balloon's tail ends.
pub open spec fn drawn_with(
    tool: Tool,
    d: PendingDrag,
    k: Knobs,
    other: Bounds,
    tail: Point,
    id: NodeId,
) -> Option<NodeView> {
    let r = Bounds::spanned(d.start, d.current);
    let fill = if k.use_fill {
        Rgba { a: 80, ..k.color }
    } else {
        Rgba { r: 0, g: 0, b: 0, a: 0 }
    };
    match tool {
        Tool::Arrow => Some(
            NodeView::Arrow {
                id,
                start: d.start,
                end: d.current,
                color: k.color,
                thickness: k.thickness,
                shadow: false,
                line_style: ArrowLineStyle::Solid,
                head_style: ArrowHeadStyle::FilledTriangle,
                control: None,
            },
        ),
        Tool::Rect => Some(
            NodeView::Shape {
                id,
                shape: ShapeKind::Rect,
                rect: r,
                stroke: k.stroke_color,
                stroke_width: k.thickness,
                fill,
            },
        ),
        Tool::Ellipse => Some(
            NodeView::Shape {
                id,
                shape: ShapeKind::Ellipse,
                rect: r,
                stroke: k.stroke_color,
                stroke_width: k.thickness,
                fill,
            },
        ),
        Tool::Callout => Some(
            NodeView::Callout {
                id,
                rect: r,
                tail,
                text: "Note"@,
                fill,
                stroke: k.stroke_color,
                stroke_width: k.thickness,
                text_color: Rgba { r: 0, g: 0, b: 0, a: 255 },
                text_size: k.text_size,
            },
        ),
        Tool::Magnify => Some(
            NodeView::Magnify {
                id,
                source_rect: r,
                target_rect: other,
                border: k.stroke_color,
                border_width: k.thickness,
                circular: k.magnify_circular,
            },
        ),
        Tool::Blur => Some(
            NodeView::Blur { id, rect: r, radius_px: k.blur_radius.larger(Px { bits: BITS_HALF }) },
        ),
        _ => None,
    }
}

/// The annotation that a drag makes with the knobs as they are.
pub fn draw_with(tool: Tool, d: PendingDrag, k: Knobs, other: Bounds, tail: Point) -> (r: Option<
    AnnotationNode,
>)
    ensures
        match r {
            Some(n) => {
                &&& crate::editor::document::is_random_uuid(n@.id().value)
                &&& drawn_with(tool, d, k, other, tail, n@.id()) == Some(n@)
            },
            None => !draws_by_drag(tool),
        },
{
    let r = Bounds::between(d.start, d.current);
    let fill = if k.use_fill {
        Rgba { r: k.color.r, g: k.color.g, b: k.color.b, a: 80 }
    } else {
        Rgba { r: 0, g: 0, b: 0, a: 0 }
    };
    match tool {
        Tool::Arrow => Some(
            crate::editor::tools::arrow::make(
                d.start,
                d.current,
                k.color,
                k.thickness,
                false,
                ArrowLineStyle::Solid,
                ArrowHeadStyle::FilledTriangle,
            ),
        ),
        Tool::Rect => Some(
            crate::editor::tools::shape::make(
                ShapeKind::Rect,
                r,
                k.stroke_color,
                k.thickness,
                fill,
            ),
        ),
        Tool::Ellipse => Some(
            crate::editor::tools::shape::make(
                ShapeKind::Ellipse,
                r,
                k.stroke_color,
                k.thickness,
                fill,
            ),
        ),
        Tool::Callout => Some(
            crate::editor::tools::callout::make(
                r,
                tail,
                "Note".to_owned(),
                fill,
                k.stroke_color,
                k.thickness,
                Rgba { r: 0, g: 0, b: 0, a: 255 },
                k.text_size,
            ),
        ),
        Tool::Magnify => Some(
            crate::editor::tools::magnify::make(
                other,
                r,
                k.stroke_color,
                k.thickness,
                k.magnify_circular,
            ),
        ),
        Tool::Blur => Some(crate::editor::tools::blur::make(r, k.blur_radius)),
        _ => None,
    }
}

impl EditorApp {
    /// A drag began on the canvas.
    pub fn drag_started(&mut self, p: Point, near: &[bool], h: PickHints)
        requires
            near@.len() == old(self)@.document.annotations.len(),
        ensures
            final(self)@ == (if old(self)@.tool == Tool::Select {
                pressed(old(self)@, p, near@, h)
            } else if draws_by_drag(old(self)@.tool) {
                AppView {
                    pending_drag: Some(PendingDrag { start: p, current: p }),
                    ..old(self)@
                }
            } else {
                old(self)@
            }),
    {
        match self.tool {
            Tool::Select => {
                self.pick_handle(p, near, h);
            },
            Tool::Arrow
            | Tool::Callout
            | Tool::Rect
            | Tool::Ellipse
            | Tool::Magnify
            | Tool::Blur => {
                self.pending_drag = Some(PendingDrag { start: p, current: p });
            },
            _ => {},
        }
    }

    /// What the dragged annotation looks like now.
    pub fn dragged_node<F: Fn(Point) -> Point, C: Fn(Bounds) -> (Point, Px, Px)>(
        &self,
        shift: &F,
        circle: &C,
    ) -> (r: Option<AnnotationNode>)
        requires
            forall|q: Point| call_requires(*shift, (q,)),
            forall|b: Bounds| call_requires(*circle, (b,)),
        ensures
            match self@.active_handle {
                Some(a) => match a.target {
                    SelectionTarget::Annotation(id) => match crate::editor::session::node_with(
                        self@.document,
                        id,
                    ) {
                        Some(n) => r is Some && is_dragged(*shift, a, *circle, n, r->Some_0@),
                        None => r is None,
                    },
                    SelectionTarget::Cursor => r is None,
                },
                None => r is None,
            },
    {
        match &self.active_handle {
            Some(a) => match a.target {
                SelectionTarget::Annotation(id) => match self.node(id) {
                    Some(n) => Some(apply_drag_to_node(&n, a, shift, circle)),
                    None => None,
                },
                SelectionTarget::Cursor => None,
            },
            None => None,
        }
    }

    /// Where the dragged cursor layer is now.
    pub fn dragged_cursor<F: Fn(Point) -> Point, G: Fn(Bounds) -> (i32, i32, u32, u32)>(
        &self,
        shift: &F,
        round: &G,
    ) -> (r: Option<(i32, i32, u32, u32)>)
        requires
            forall|q: Point| call_requires(*shift, (q,)),
            forall|b: Bounds| call_requires(*round, (b,)),
        ensures
            match self@.active_handle {
                Some(a) => if a.target == SelectionTarget::Cursor && self@.document.cursor is Some {
                    r is Some && is_cursor_dragged(*shift, *round, a, r->Some_0)
                } else {
                    r is None
                },
                None => r is None,
            },
    {
        match &self.active_handle {
            Some(a) => match a.target {
                SelectionTarget::Annotation(_) => None,
                SelectionTarget::Cursor => {
                    if self.document.cursor.is_none() {
                        return None;
                    }
                    let moved = crate::editor::tools::selection::shift_box(a.start_rect, shift);
                    let now = crate::editor::tools::selection::drag_rect(
                        a.start_rect,
                        moved,
                        a.handle,
                    );
                    let whole = round(now);
                    let place = crate::editor::tools::cursor_edit::apply_rect(whole);
                    assert(crate::editor::tools::selection::shifts_box(
                        *shift,
                        a@.start_rect,
                        moved,
                    ));
                    assert(is_cursor_dragged(*shift, *round, a@, place));
                    Some(place)
                },
            },
            None => None,
        }
    }

    /// The pointer moved during a drag. `shift` moves a point by the way from where the
    /// drag began to `p`, `circle` gives the middle of a box and half its width and height,
    /// and `round` its place in whole pixels.
    pub fn dragged<
        F: Fn(Point) -> Point,
        C: Fn(Bounds) -> (Point, Px, Px),
        G: Fn(Bounds) -> (i32, i32, u32, u32),
    >(
        &mut self,
        p: Point,
        shift: &F,
        circle: &C,
        round: &G,
    )
        requires
            forall|q: Point| call_requires(*shift, (q,)),
            forall|b: Bounds| call_requires(*circle, (b,)),
            forall|b: Bounds| call_requires(*round, (b,)),
        ensures
            if old(self)@.tool == Tool::Select {
                exists|live: Option<NodeView>, cursor: Option<Placement>| #[trigger]
                    is_in_hand(old(self)@, *shift, *circle, *round, live, cursor) && final(self)@
                        == dragged_along(old(self)@, live, cursor)
            } else if draws_by_drag(old(self)@.tool) {
                final(self)@ == (AppView {
                    pending_drag: match old(self)@.pending_drag {
                        Some(d) => Some(PendingDrag { current: p, ..d }),
                        None => None,
                    },
                    ..old(self)@
                })
            } else {
                final(self)@ == old(self)@
            },
    {
        match self.tool {
            Tool::Select => {
                let live = self.dragged_node(shift, circle);
                let cursor = self.dragged_cursor(shift, round);
                let ghost shown = crate::editor::commands::node_view(live);
                assert(is_in_hand(old(self)@, *shift, *circle, *round, shown, cursor));
                let target = match &self.active_handle {
                    Some(a) => Some(a.target),
                    None => None,
                };
                match target {
                    Some(SelectionTarget::Annotation(id)) => match live {
                        Some(n) => {
                            self.put_node(id, n);
                        },
                        None => {},
                    },
                    Some(SelectionTarget::Cursor) => match cursor {
                        Some(place) => {
                            self.put_cursor(place);
                        },
                        None => {},
                    },
                    None => {},
                }
                assert(self@ == dragged_along(old(self)@, shown, cursor));
            },
            Tool::Arrow
            | Tool::Callout
            | Tool::Rect
            | Tool::Ellipse
            | Tool::Magnify
            | Tool::Blur => match self.pending_drag {
                Some(d) => {
                    self.pending_drag = Some(PendingDrag { start: d.start, current: p });
                },
                None => {},
            },
            _ => {},
        }
    }

    fn put_cursor(&mut self, p: (i32, i32, u32, u32))
        ensures
            final(self)@ == (AppView {
                document: cursor_put(old(self)@.document, p),
                ..old(self)@
            }),
    {
        let cursor = self.document.cursor.take();
        match cursor {
            Some(c) => {
                let mut moved = c;
                moved.x = p.0;
                moved.y = p.1;
                moved.width = p.2;
                moved.height = p.3;
                self.document.cursor = Some(moved);
            },
            None => {},
        }
    }

    /// A drag ended. A drag that draws counts only if it is `large` enough; the result
    /// is the identity of what it drew.
    pub fn drag_stopped(&mut self, large: bool, other: Bounds, tail: Point) -> (r: Option<NodeId>)
        ensures
            ({
                let s = old(self)@;
                if s.tool == Tool::Select {
                    final(self)@ == let_go(s) && r is None
                } else if draws_by_drag(s.tool) {
                    let s1 = AppView { pending_drag: None, ..s };
                    &&& r is Some <==> s.pending_drag is Some && large
                    &&& final(self)@ == match r {
                        Some(id) => commanded(
                            s1,
                            crate::editor::session::adding(
                                drawn_with(
                                    s.tool,
                                    s.pending_drag->Some_0,
                                    s.knobs,
                                    other,
                                    tail,
                                    id,
                                )->Some_0,
                            ),
                        ),
                        None => s1,
                    }
                } else {
                    final(self)@ == s && r is None
                }
            }),
            r matches Some(id) ==> crate::editor::document::is_random_uuid(id.value),
    {
        match self.tool {
            Tool::Select => {
                self.release_handle();
                None
            },
            Tool::Arrow
            | Tool::Callout
            | Tool::Rect
            | Tool::Ellipse
            | Tool::Magnify
            | Tool::Blur => {
                let drag = self.pending_drag;
                self.pending_drag = None;
                match drag {
                    Some(d) => {
                        if !large {
                            return None;
                        }
                        match draw_with(self.tool, d, self.knobs, other, tail) {
                            Some(node) => {
                                let id = node.id();
                                self.push_command(Command::Add(AddAnnotation::new(node)));
                                Some(id)
                            },
                            None => None,
                        }
                    },
                    None => None,
                }
            },
            _ => None,
        }
    }

    fn release_handle(&mut self)
        ensures
            final(self)@ == let_go(old(self)@),
    {
        let active = self.active_handle.take();
        match active {
            Some(a) => match a.target {
                SelectionTarget::Annotation(id) => {
                    let found = self.node(id);
                    match (a.before, found) {
                        (Some(before), Some(after)) => {
                            if !same_node(&before, &after) {
                                self.put_node(id, before.clone());
                                self.push_command(
                                    Command::Update(UpdateAnnotation::new(before, after)),
                                );
                            }
                        },
                        _ => {},
                    }
                },
                SelectionTarget::Cursor => {
                    let place = match &self.document.cursor {
                        Some(c) => Some((c.x, c.y, c.width, c.height)),
                        None => None,
                    };
                    match (a.before_cursor, place) {
                        (Some(before), Some(after)) => {
                            let same = before.0 == after.0 && before.1 == after.1 && before.2
                                == after.2 && before.3 == after.3;
                            if !same {
                                self.put_cursor(before);
                                self.push_command(
                                    Command::UpdateCursor(UpdateCursor::new(before, after)),
                                );
                            }
                        },
                        _ => {},
                    }
                },
            },
            None => {},
        }
    }
}

/// Dragging the cursor layer is one step of the history: whatever was shown
/// meanwhile, one undo brings back the document as it was when the drag began.
pub proof fn law_cursor_drag_is_one_step(s: AppView, before: Placement, after: Placement)
    requires
        s.document.cursor matches Some(c) && before == (c.x, c.y, c.width, c.height),
        before != after,
        s.active_handle matches Some(a) && a.target == SelectionTarget::Cursor && a.before_cursor
            == Some(before),
    ensures
        ({
            let moved = AppView { document: cursor_put(s.document, after), ..s };
            &&& let_go(moved).document == cursor_put(s.document, after)
            &&& stepped_back(let_go(moved)).document == s.document
        }),
{
    let moved = AppView { document: cursor_put(s.document, after), ..s };
    assert(cursor_put(moved.document, before) =~= s.document);
    let c = CommandView::UpdateCursor { before: Some(before), after: Some(after) };
    let undo = s.history.undo.push(c);
    let kept = crate::editor::commands::newest(undo, crate::editor::commands::HISTORY_LIMIT as int);
    assert(kept.last() == c);
    assert(let_go(moved).document =~= cursor_put(s.document, after));
    assert(stepped_back(let_go(moved)).document =~= s.document);
}

/// Dragging a handle of an annotation is one step of the history: whatever was shown
/// meanwhile, one undo brings back the document as it was when the drag began.
pub proof fn law_annotation_drag_is_one_step(
    s: AppView,
    id: NodeId,
    before: NodeView,
    after: NodeView,
)
    requires
        crate::editor::session::node_with(s.document, id) == Some(before),
        after.id() == id,
        before != after,
        s.active_handle matches Some(a) && a.target == SelectionTarget::Annotation(id) && a.before
            == Some(before),
    ensures
        ({
            let moved = AppView {
                document: crate::editor::session::replaced(s.document, id, after),
                ..s
            };
            &&& let_go(moved).document == moved.document
            &&& stepped_back(let_go(moved)).document == s.document
        }),
{
    let d = s.document;
    let moved = AppView { document: crate::editor::session::replaced(d, id, after), ..s };
    crate::editor::document::lemma_position_of(d.annotations, id);
    crate::editor::session::lemma_put_back(d, id, after);
    assert(before.id() == id);
    let c = crate::editor::session::changing(before, after);
    crate::editor::commands::law_undo_redo_after_push(s.history, c, d);
    assert(let_go(moved).document =~= moved.document);
}

// ---------------------------------------------------------------------------
// Clicks
// ---------------------------------------------------------------------------

/// The step that a click places. Its number is dark on a light fill.
pub open spec fn step_placed(s: AppView, p: Point, dark: bool, id: NodeId) -> NodeView {
    NodeView::Step {
        id,
        center: p,
        radius: s.knobs.step_radius,
        number: (crate::editor::tools::step::largest_number(s.document.annotations) + 1) as u32,
        fill: s.knobs.color,
        text_color: if dark {
            Rgba { r: 255, g: 255, b: 255, a: 255 }
        } else {
            Rgba { r: 0, g: 0, b: 0, a: 255 }
        },
    }
}

/// The window after a click with the text tool: a text that is being typed is
/// finished; then the text box `hit` is edited, with its colour and size, or a new
/// text begins at `rect`. `new_id` is the identity of a box that was finished.
pub open spec fn text_clicked(
    s: AppView,
    hit: Option<NodeId>,
    rect: Bounds,
    new_id: Option<NodeId>,
) -> AppView {
    let s1 = text_committed(s, new_id);
    match hit {
        Some(id) => match crate::editor::session::node_with(s1.document, id) {
            Some(NodeView::Text { id: _, rect: r, text, color, size_px, .. }) => AppView {
                knobs: Knobs { color, text_size: size_px, ..s1.knobs },
                pending_text: Some(
                    PendingTextView { rect: r, buffer: text, editing_id: Some(id) },
                ),
                ..s1
            },
            _ => s1,
        },
        None => AppView {
            pending_text: Some(PendingTextView { rect, buffer: Seq::empty(), editing_id: None }),
            ..s1
        },
    }
}

impl EditorApp {
    /// A click with the Select tool, while no handle is dragged.
    pub fn click_select(&mut self, p: Point, near: &[bool], cursor_box: Bounds)
        requires
            near@.len() == old(self)@.document.annotations.len(),
        ensures
            final(self)@ == (if old(self)@.active_handle is None {
                AppView {
                    selection: picked(old(self)@.document, p, near@, cursor_box),
                    ..old(self)@
                }
            } else {
                old(self)@
            }),
    {
        if self.active_handle.is_none() {
            self.selection = self.pick_target(p, near, cursor_box);
        }
    }

    /// A click with the step tool. `dark` says that the colour is dark. The result is
    /// the identity of the marker.
    pub fn click_step(&mut self, p: Point, dark: bool) -> (r: NodeId)
        requires
            crate::editor::tools::step::largest_number(old(self)@.document.annotations) < u32::MAX,
        ensures
            crate::editor::document::is_random_uuid(r.value),
            final(self)@ == commanded(
                old(self)@,
                crate::editor::session::adding(step_placed(old(self)@, p, dark, r)),
            ),
    {
        let number = crate::editor::tools::step::next_number(&self.document);
        let text_color = if dark {
            Rgba { r: 255, g: 255, b: 255, a: 255 }
        } else {
            Rgba { r: 0, g: 0, b: 0, a: 255 }
        };
        let node = crate::editor::tools::step::make(
            p,
            self.knobs.step_radius,
            number,
            self.knobs.color,
            text_color,
        );
        let id = node.id();
        self.push_command(Command::Add(AddAnnotation::new(node)));
        id
    }

    /// A click with the text tool. The result is the identity of a text box that it
    /// finished.
    pub fn click_text(&mut self, hit: Option<NodeId>, rect: Bounds) -> (r: Option<NodeId>)
        ensures
            final(self)@ == text_clicked(old(self)@, hit, rect, r),
            r is Some <==> makes_box(old(self)@),
            r matches Some(id) ==> crate::editor::document::is_random_uuid(id.value),
    {
        let made = self.commit_pending_text();
        match hit {
            Some(id) => {
                let found = self.node(id);
                match found {
                    Some(AnnotationNode::Text { rect: r, text, color, size_px, .. }) => {
                        self.knobs.color = color;
                        self.knobs.text_size = size_px;
                        self.pending_text = Some(
                            PendingText { rect: r, buffer: text, editing_id: Some(id) },
                        );
                    },
                    _ => {},
                }
            },
            None => {
                let text = PendingText { rect, buffer: String::new(), editing_id: None };
                self.pending_text = Some(text);
            },
        }
        made
    }
}

// ---------------------------------------------------------------------------
// Shortcuts and closing
// ---------------------------------------------------------------------------

/// The shortcuts that were pressed.
#[derive(Debug, Clone, Copy, PartialEq, Eq, Structural)]
pub struct Shortcuts {
    pub undo: bool,
    pub redo: bool,
    pub rotate: bool,
    pub save: bool,
    pub delete: bool,
}

/// What is left to do after the shortcuts: turn the base picture, and save.
#[derive(Debug, Clone, Copy, PartialEq, Eq, Structural)]
pub struct ShortcutWork {
    pub rotate: bool,
    pub save: bool,
}

/// The window after undo and redo.
pub open spec fn history_keys(s: AppView, k: Shortcuts) -> AppView {
    let s1 = if k.undo {
        stepped_back(s)
    } else {
        s
    };
    if k.redo {
        stepped_forward(s1)
    } else {
        s1
    }
}

/// What the question about unsaved changes was answered with.
#[derive(Debug, Clone, Copy, PartialEq, Eq, Structural)]
pub enum CloseAnswer {
    Save,
    Discard,
    Cancel,
}

impl EditorApp {
    /// Undo and redo. While a text is typed, the picture is not turned.
    pub fn history_shortcuts(&mut self, k: Shortcuts) -> (r: ShortcutWork)
        ensures
            final(self)@ == history_keys(old(self)@, k),
            r.save == k.save,
            r.rotate == (k.rotate && old(self)@.pending_text is None),
    {
        if k.undo {
            self.undo();
        }
        if k.redo {
            self.redo();
        }
        ShortcutWork { rotate: k.rotate && self.pending_text.is_none(), save: k.save }
    }

    /// Delete, or Backspace: not while a text is typed.
    pub fn delete_shortcut(&mut self, pressed: bool)
        ensures
            final(self)@ == (if pressed && old(self)@.pending_text is None {
                selection_deleted(old(self)@)
            } else {
                old(self)@
            }),
    {
        if pressed && self.pending_text.is_none() {
            self.delete_selection();
        }
    }

    /// The window is to close. The result says whether it is kept open, to ask about
    /// unsaved changes.
    pub fn close_requested(&mut self) -> (keep: bool)
        ensures
            keep == old(self)@.dirty,
            final(self)@ == (AppView {
                close_prompt_shown: old(self)@.close_prompt_shown || old(self)@.dirty,
                ..old(self)@
            }),
    {
        if self.dirty {
            self.close_prompt_shown = true;
            true
        } else {
            false
        }
    }

    /// The question was answered; for Save, with the outcome of saving. The result
    /// says whether the window closes.
    pub fn answer_close(&mut self, answer: CloseAnswer, saving: Result<String, String>) -> (close:
        bool)
        ensures
            close == (answer == CloseAnswer::Discard || answer == CloseAnswer::Save && saving is Ok),
            final(self)@ == match answer {
                CloseAnswer::Save => match saving {
                    Ok(path) => AppView {
                        close_prompt_shown: false,
                        dirty: false,
                        saved_once: true,
                        status: "Saved to "@ + path@,
                        ..old(self)@
                    },
                    Err(why) => AppView {
                        close_prompt_shown: false,
                        status: "Save failed: "@ + why@,
                        ..old(self)@
                    },
                },
                CloseAnswer::Discard => AppView {
                    close_prompt_shown: false,
                    dirty: false,
                    saved_once: true,
                    ..old(self)@
                },
                CloseAnswer::Cancel => AppView { close_prompt_shown: false, ..old(self)@ },
            },
    {
        self.close_prompt_shown = false;
        match answer {
            CloseAnswer::Save => {
                let done = saving.is_ok();
                self.saved(saving);
                done
            },
            CloseAnswer::Discard => {
                self.dirty = false;
                self.saved_once = true;
                true
            },
            CloseAnswer::Cancel => false,
        }
    }

    /// Whether the document is to be saved when the window is gone: if there are
    /// changes, or if it never was.
    pub fn save_on_exit(&self) -> (r: bool)
        ensures
            r == (self@.dirty || !self@.saved_once),
    {
        self.dirty || !self.saved_once
    }
}

/// Turning to the right is clockwise: the top row becomes the right column from
/// the top down, and the left column the top row from the right. Turning to the
/// left is the other way round.
pub proof fn law_turns_have_a_direction(a: &RgbaImage, right: &RgbaImage, left: &RgbaImage, i: int)
    requires
        turned_right(a, right),
        turned_left(a, left),
        a.width > 0,
        a.height > 0,
    ensures
        0 <= i < a.width ==> right.at(right.width - 1, i) == a.at(i, 0),
        0 <= i < a.height ==> right.at(right.width - 1 - i, 0) == a.at(0, i),
        0 <= i < a.width ==> left.at(0, left.height - 1 - i) == a.at(i, 0),
        0 <= i < a.height ==> left.at(i, left.height - 1) == a.at(0, i),
        right.width == a.height && right.height == a.width,
        left.width == a.height && left.height == a.width,
{
    if 0 <= i < a.width {
        assert(a.inside(i, 0));
        assert(a.at(i, 0) == right.at(a.height - 1 - 0, i));
        assert(a.at(i, 0) == left.at(0, a.width - 1 - i));
    }
    if 0 <= i < a.height {
        assert(a.inside(0, i));
        assert(a.at(0, i) == right.at(a.height - 1 - i, 0));
        assert(a.at(0, i) == left.at(i, a.width - 1 - 0));
    }
}

/// Turning to the right twice turns the picture upside down.
pub proof fn law_two_turns_are_half(a: &RgbaImage, b: &RgbaImage, c: &RgbaImage, x: int, y: int)
    requires
        turned_right(a, b),
        turned_right(b, c),
        a.inside(x, y),
    ensures
        c.same_size(a),
        c.at(a.width - 1 - x, a.height - 1 - y) == a.at(x, y),
{
    assert(a.at(x, y) == b.at(a.height - 1 - y, x));
    assert(b.inside(a.height - 1 - y, x));
}

/// A command, a step back and a step forward change the document and its
/// history only, and leave unsaved changes where they change something.
pub proof fn law_steps_change_the_document(s: AppView, c: CommandView)
    ensures
        commanded(s, c).dirty,
        commanded(s, c).document == crate::editor::commands::applied(c, s.document).1,
        commanded(s, c) == (AppView {
            document: commanded(s, c).document,
            history: commanded(s, c).history,
            dirty: true,
            ..s
        }),
        commanded(s, c).history.undo.len() > 0 && commanded(s, c).history.redo.len() == 0,
        s.history.undo.len() == 0 ==> stepped_back(s) == s,
        s.history.redo.len() == 0 ==> stepped_forward(s) == s,
        s.history.undo.len() > 0 ==> stepped_back(s).dirty && stepped_back(s).history.undo.len()
            == s.history.undo.len() - 1 && stepped_back(s).history.redo.len()
            == s.history.redo.len() + 1,
        s.history.redo.len() > 0 ==> stepped_forward(s).dirty
            && stepped_forward(s).history.redo.len() == s.history.redo.len() - 1
            && stepped_forward(s).history.undo.len() == s.history.undo.len() + 1,
        stepped_back(s) == (AppView {
            document: stepped_back(s).document,
            history: stepped_back(s).history,
            dirty: stepped_back(s).dirty,
            ..s
        }),
{
}

/// Deleting takes away what is selected, the annotation or the cursor, and ends
/// the selection; without a selection nothing happens.
pub proof fn law_selection_is_deleted(s: AppView)
    ensures
        s.selection is None ==> selection_deleted(s) == s,
        selection_deleted(s).selection is None,
        s.selection == Some(SelectionTarget::Cursor) ==> selection_deleted(
            s,
        ).document.cursor is None && selection_deleted(s).document.annotations
            == s.document.annotations,
        s.selection matches Some(SelectionTarget::Annotation(id)) ==> selection_deleted(
            s,
        ).document.cursor == s.document.cursor && selection_deleted(
            s,
        ).document.annotations.len() == s.document.annotations.len() - (
        if crate::editor::document::has_id(s.document.annotations, id) {
            1int
        } else {
            0
        }),
{
    if s.selection is Some && s.selection->Some_0 is Annotation {
        crate::editor::document::law_found_at_the_first_place(
            s.document.annotations,
            s.selection->Some_0->Annotation_0,
        );
    }
}

/// Text that was typed becomes a box of its own, or the text of the box that is
/// edited, without the white space round it. Where nothing is left, no box is
/// made, and a box that was edited is removed.
pub proof fn law_typed_text_is_committed(s: AppView, new_id: Option<NodeId>)
    requires
        new_id is Some <==> makes_box(s),
    ensures
        ({
            let c = text_committed(s, new_id);
            let t = s.pending_text->Some_0;
            let text = crate::text::trim(t.buffer, CharClass::Whitespace);
            let before = s.document.annotations;
            let after = c.document.annotations;
            &&& c.pending_text is None
            &&& s.pending_text is None ==> c == s
            &&& s.pending_text is Some && t.editing_id is None && text.len() == 0 ==> after
                == before && c.dirty == s.dirty
            &&& s.pending_text is Some && t.editing_id is None && text.len() > 0 ==> {
                &&& after.len() == before.len() + 1 && after.drop_last() == before
                &&& after.last() is Text && Some(after.last().id()) == new_id
                &&& after.last()->Text_rect == t.rect && after.last()->Text_text == text
                &&& after.last()->Text_color == s.knobs.color
                &&& after.last()->Text_size_px == s.knobs.text_size
                &&& !after.last()->Text_frosted && !after.last()->Text_shadow
                &&& after.last()->Text_align is Left && after.last()->Text_list is Plain
            }
            &&& s.pending_text is Some ==> (t.editing_id matches Some(id) ==> {
                let n = crate::editor::session::node_with(s.document, id);
                &&& n is None ==> after == before
                &&& n is Some && text.len() == 0 ==> after.len() == before.len() - 1
                &&& n is Some && text.len() > 0 ==> c.document
                    == crate::editor::session::replaced(
                    s.document,
                    id,
                    crate::editor::session::with_text(n->Some_0, text),
                )
            })
        }),
{
    let c = text_committed(s, new_id);
    if makes_box(s) {
        assert(c.document.annotations.drop_last() =~= s.document.annotations);
    }
    if s.pending_text is Some && s.pending_text->Some_0.editing_id is Some {
        let id = s.pending_text->Some_0.editing_id->Some_0;
        crate::editor::document::law_found_at_the_first_place(s.document.annotations, id);
    }
}

/// The controls of a tool are those for what it draws: a colour first, an
/// outline and a fill for closed shapes and loupes, and sliders whose limits
/// are in order and whose titles name what they set.
pub proof fn law_toolbar_shows_what_a_tool_uses(tool: Tool, i: int)
    requires
        0 <= i < controls_of(tool).len(),
    ensures
        ({
            let all = controls_of(tool);
            let outlined = tool == Tool::Rect || tool == Tool::Ellipse || tool == Tool::Callout
                || tool == Tool::Magnify;
            let c = all[i];
            &&& all[0] is Color
            &&& c is Color ==> i == 0
            &&& c is StrokeColor <==> outlined && i == 1
            &&& c is Fill <==> outlined && i == 2
            &&& c is Circular ==> tool == Tool::Magnify
            &&& tool == Tool::Magnify ==> all.len() == 5 && all[3] is Circular
            &&& c is InfoPosition || c is InfoField || c is PlaceInfo ==> tool == Tool::CaptureInfo
            &&& tool == Tool::CaptureInfo ==> all.len() == 8 && all[1] is InfoPosition
                && all[7] is PlaceInfo && (2 <= i < 7 <==> c is InfoField)
            &&& c matches Control::Slider { title, knob, min, max } ==> {
                &&& min.at_most(max)
                &&& knob is Thickness <==> title is Thickness || title is StrokeWidth
                    || title is Border
                &&& knob is TextSize <==> title is Size || title is TextSize
                &&& knob is StepRadius <==> title is Radius && tool == Tool::Step
                &&& knob is BlurRadius <==> title is Radius && tool == Tool::Blur
                &&& title is Border <==> tool == Tool::Magnify
                &&& knob is TextSize ==> tool == Tool::Text || tool == Tool::Callout
                &&& knob is TextSize ==> crate::px::is_pattern_of(min.bits, 16, 3, 16)
                &&& tool == Tool::Text ==> crate::px::is_pattern_of(max.bits, 256, 7, 256)
                &&& tool == Tool::Callout && knob is TextSize ==> crate::px::is_pattern_of(
                    max.bits,
                    128,
                    6,
                    128,
                )
                &&& knob is Thickness && tool == Tool::Arrow ==> crate::px::is_pattern_of(
                    max.bits,
                    80,
                    5,
                    64,
                )
                &&& title is StrokeWidth ==> crate::px::is_pattern_of(max.bits, 48, 4, 32)
                &&& title is Border ==> min.bits == 0 && crate::px::is_pattern_of(
                    max.bits,
                    20,
                    3,
                    16,
                )
                &&& tool == Tool::Step ==> crate::px::is_pattern_of(min.bits, 20, 3, 16)
                    && crate::px::is_pattern_of(max.bits, 160, 6, 128)
                &&& tool == Tool::Blur ==> crate::px::is_pattern_of(min.bits, 2, 0, 2)
                    && crate::px::is_pattern_of(max.bits, 128, 6, 128)
                &&& title is StrokeWidth || title is Thickness ==> crate::px::is_pattern_of(
                    min.bits,
                    2,
                    0,
                    2,
                )
            }
        }),
        controls_of(tool).len() == (match tool {
            Tool::Select => 1int,
            Tool::Arrow | Tool::Text | Tool::Step | Tool::Blur => 2,
            Tool::Rect | Tool::Ellipse => 4,
            Tool::Callout | Tool::Magnify => 5,
            Tool::CaptureInfo => 8,
        }),
        tool == Tool::Arrow || tool == Tool::Text || tool == Tool::Step || tool == Tool::Blur
            || tool == Tool::Rect || tool == Tool::Ellipse || tool == Tool::Callout || tool
            == Tool::Magnify ==> controls_of(tool).last() is Slider,
        tool == Tool::CaptureInfo ==> controls_of(tool)[2] == Control::InfoField(
            FieldKind::Timestamp,
        ) && controls_of(tool)[3] == Control::InfoField(FieldKind::WindowTitle) && controls_of(
            tool,
        )[4] == Control::InfoField(FieldKind::ProcessName) && controls_of(tool)[5]
            == Control::InfoField(FieldKind::OsVersion) && controls_of(tool)[6]
            == Control::InfoField(FieldKind::MonitorInfo),
{
}

/// A change of the torn edge sets the one thing it is for, kept within its
/// limits: 1 to 80 pixels deep, teeth of 4 to 80. Making it twice is making it
/// once.
pub proof fn law_edge_changes_one_thing(e: EdgeEffect, c: EdgeChange)
    ensures
        ({
            let a = edge_changed(e, c);
            &&& c matches EdgeChange::Side(side) ==> a.edge == side && a.depth == e.depth && a.teeth
                == e.teeth
            &&& c matches EdgeChange::Depth(v) ==> a.edge == e.edge && a.teeth == e.teeth && (
            !v.is_nan() ==> (Px { bits: 0x3f80_0000 }).at_most(a.depth) && a.depth.at_most(
                Px { bits: 0x42a0_0000 },
            )) && ((Px { bits: 0x3f80_0000 }).at_most(v) && v.at_most(Px { bits: 0x42a0_0000 })
                ==> a.depth == v)
            &&& c matches EdgeChange::Tooth(v) ==> a.edge == e.edge && a.depth == e.depth && (
            !v.is_nan() ==> (Px { bits: 0x4080_0000 }).at_most(a.teeth) && a.teeth.at_most(
                Px { bits: 0x42a0_0000 },
            )) && ((Px { bits: 0x4080_0000 }).at_most(v) && v.at_most(Px { bits: 0x42a0_0000 })
                ==> a.teeth == v)
            &&& a.top == e.top && a.bottom == e.bottom && a.left == e.left && a.right == e.right
            &&& edge_changed(a, c) == a
        }),
{
}

/// A change of the border sets the one thing it is for, kept within its limits:
/// up to 40 pixels wide or blurred, an offset of up to 20 either way.
pub proof fn law_border_changes_one_thing(b: Border, c: BorderChange)
    ensures
        ({
            let a = border_changed(b, c);
            let zero = Px { bits: 0 };
            let forty = Px { bits: 0x4220_0000 };
            let twenty = Px { bits: 0x41a0_0000 };
            let minus_twenty = Px { bits: 0xc1a0_0000 };
            &&& c is Color || a.color == b.color
            &&& c is Width || a.width == b.width
            &&& c is ShadowBlur || a.shadow_radius == b.shadow_radius
            &&& c is ShadowDx || a.shadow_offset.x == b.shadow_offset.x
            &&& c is ShadowDy || a.shadow_offset.y == b.shadow_offset.y
            &&& a.shadow_color == b.shadow_color && a.matte_width == b.matte_width && a.matte_color
                == b.matte_color
            &&& c matches BorderChange::Color(v) ==> a.color == v
            &&& c matches BorderChange::Width(v) ==> (zero.at_most(v) && v.at_most(forty)
                ==> a.width == v) && (!v.is_nan() ==> zero.at_most(a.width) && a.width.at_most(
                forty,
            ))
            &&& c matches BorderChange::ShadowBlur(v) ==> (zero.at_most(v) && v.at_most(forty)
                ==> a.shadow_radius == v) && (!v.is_nan() ==> zero.at_most(a.shadow_radius)
                && a.shadow_radius.at_most(forty))
            &&& c matches BorderChange::ShadowDx(v) ==> (minus_twenty.at_most(v) && v.at_most(
                twenty,
            ) ==> a.shadow_offset.x == v) && (!v.is_nan() ==> minus_twenty.at_most(
                a.shadow_offset.x,
            ) && a.shadow_offset.x.at_most(twenty))
            &&& c matches BorderChange::ShadowDy(v) ==> (minus_twenty.at_most(v) && v.at_most(
                twenty,
            ) ==> a.shadow_offset.y == v) && (!v.is_nan() ==> minus_twenty.at_most(
                a.shadow_offset.y,
            ) && a.shadow_offset.y.at_most(twenty))
        }),
{
}

/// Setting an effect sets it alone and can be undone. Another base picture has
/// its own size, which is then the size for export, and leaves nothing to undo.
pub proof fn law_effects_and_base_are_put(
    s: AppView,
    e: Option<EdgeEffect>,
    b: Option<Border>,
    width: u32,
    height: u32,
    png: Seq<u8>,
)
    ensures
        edge_put(s, e).document == (DocumentView { edge_effect: e, ..s.document }),
        border_put(s, b).document == (DocumentView { border: b, ..s.document }),
        stepped_back(edge_put(s, e)).document == s.document,
        stepped_back(border_put(s, b)).document == s.document,
        ({
            let p = base_put(s, width, height, png);
            &&& p.document.base_width == width && p.document.base_height == height
            &&& p.document.base_png == png
            &&& p.document.annotations == s.document.annotations && p.document.cursor
                == s.document.cursor
            &&& p.export_size.width == width && p.export_size.height == height
            &&& p.export_size.lock_aspect == s.export_size.lock_aspect
            &&& p.history.undo.len() == 0 && p.history.redo.len() == 0 && p.dirty
            &&& p.knobs == s.knobs && p.selection == s.selection && p.tool == s.tool
        }),
{
    crate::editor::commands::law_undo_redo_after_push(
        s.history,
        CommandView::SetEdgeEffect { before: s.document.edge_effect, after: e },
        s.document,
    );
    crate::editor::commands::law_undo_redo_after_push(
        s.history,
        CommandView::SetBorder { before: s.document.border, after: b },
        s.document,
    );
}

/// A picture is exported in the size that was set, each side at least one pixel.
pub proof fn law_export_size_is_what_was_set(s: ExportSize)
    ensures
        export_extent(s).0 >= 1 && export_extent(s).1 >= 1,
        s.width >= 1 ==> export_extent(s).0 == s.width,
        s.height >= 1 ==> export_extent(s).1 == s.height,
        s.width == 0 ==> export_extent(s).0 == 1,
        s.height == 0 ==> export_extent(s).1 == 1,
{
}

/// How far up an annotation is painted: blurs above the plain ones, loupes above
/// blurs, banners above all.
pub open spec fn height_of(n: NodeView) -> int {
    if n is CaptureInfo {
        3
    } else if n is Magnify {
        2
    } else if n is Blur {
        1
    } else {
        0
    }
}

proof fn lemma_layer_is_sorted(s: Seq<NodeView>, hidden: Option<NodeId>, layer: Layer)
    requires
        s.len() <= usize::MAX,
    ensures
        ({
            let p = layer_places(s, hidden, layer);
            &&& forall|i: int|
                0 <= i < p.len() ==> (#[trigger] p[i]) < s.len() && layer_of(s[p[i] as int]) == layer
            &&& forall|i: int, j: int| 0 <= i < j < p.len() ==> p[i] < p[j]
        }),
    decreases s.len(),
{
    if s.len() > 0 {
        lemma_layer_is_sorted(s.drop_last(), hidden, layer);
        let head = layer_places(s.drop_last(), hidden, layer);
        let p = layer_places(s, hidden, layer);
        assert forall|i: int| 0 <= i < p.len() implies (#[trigger] p[i]) < s.len() && layer_of(
            s[p[i] as int],
        ) == layer by {
            if i < head.len() {
                assert(p[i] == head[i]);
                assert(s.drop_last()[head[i] as int] == s[head[i] as int]);
            }
        }
        assert forall|i: int, j: int| 0 <= i < j < p.len() implies p[i] < p[j] by {
            assert(p[i] == head[i]);
            if j < head.len() {
                assert(p[j] == head[j]);
            }
        }
    }
}

/// Annotations are painted in the order of the document, but that blurs come
/// after the plain ones, loupes after blurs, and banners last.
pub proof fn law_painted_in_layers(s: Seq<NodeView>, hidden: Option<NodeId>, i: int, j: int)
    requires
        s.len() <= usize::MAX,
        0 <= i < j < painted(s, hidden).len(),
    ensures
        ({
            let p = painted(s, hidden);
            &&& p[i] < s.len() && p[j] < s.len()
            &&& height_of(s[p[i] as int]) <= height_of(s[p[j] as int])
            &&& height_of(s[p[i] as int]) == height_of(s[p[j] as int]) ==> p[i] < p[j]
        }),
{
    lemma_layer_is_sorted(s, hidden, Layer::Plain);
    lemma_layer_is_sorted(s, hidden, Layer::Blur);
    lemma_layer_is_sorted(s, hidden, Layer::Magnify);
    lemma_layer_is_sorted(s, hidden, Layer::Info);
    let a = layer_places(s, hidden, Layer::Plain);
    let b = layer_places(s, hidden, Layer::Blur);
    let c = layer_places(s, hidden, Layer::Magnify);
    let d = layer_places(s, hidden, Layer::Info);
    let p = painted(s, hidden);
    let n1 = a.len() as int;
    let n2 = n1 + b.len();
    let n3 = n2 + c.len();
    assert(p.len() == n3 + d.len());
    assert forall|k: int| 0 <= k < p.len() implies (#[trigger] p[k]) == (if k < n1 {
        a[k]
    } else if k < n2 {
        b[k - n1]
    } else if k < n3 {
        c[k - n2]
    } else {
        d[k - n3]
    }) by {}
    assert(p[i] == p[i] && p[j] == p[j]);
}

/// A click picks what has a rectangle inside it, whichever corner was dragged
/// first; an arrow or a marker where it is near; a banner never.
pub proof fn law_picks_the_rectangle(n: NodeView, p: Point, near: bool)
    ensures
        n is Arrow || n is Step ==> picks(n, p, near) == near,
        n is CaptureInfo ==> !picks(n, p, near),
        n matches NodeView::Text { rect, .. } ==> picks(n, p, near) == rect.ordered().holds(p),
        n matches NodeView::Callout { rect, .. } ==> picks(n, p, near) == rect.ordered().holds(p),
        n matches NodeView::Shape { rect, .. } ==> picks(n, p, near) == rect.ordered().holds(p),
        n matches NodeView::Stamp { rect, .. } ==> picks(n, p, near) == rect.ordered().holds(p),
        n matches NodeView::Blur { rect, .. } ==> picks(n, p, near) == rect.ordered().holds(p),
        n matches NodeView::Magnify { target_rect, .. } ==> picks(n, p, near)
            == target_rect.ordered().holds(p),
{
}

/// The topmost annotation under the pointer is picked.
pub proof fn law_topmost_is_picked(s: Seq<NodeView>, p: Point, near: Seq<bool>)
    ensures
        match top_pick(s, p, near) {
            Some(id) => exists|i: int|
                #![trigger s[i]]
                0 <= i < s.len() && s[i].id() == id && picks(s[i], p, near[i]) && forall|k: int|
                    i < k < s.len() ==> !picks(#[trigger] s[k], p, near[k]),
            None => forall|k: int| 0 <= k < s.len() ==> !picks(#[trigger] s[k], p, near[k]),
        },
    decreases s.len(),
{
    if s.len() > 0 {
        let head = s.drop_last();
        if picks(s.last(), p, near[s.len() - 1]) {
            assert(s[s.len() - 1] == s.last());
        } else {
            law_topmost_is_picked(head, p, near);
            if top_pick(head, p, near) is Some {
                let id = top_pick(head, p, near)->Some_0;
                let i = choose|i: int|
                    #![trigger head[i]]
                    0 <= i < head.len() && head[i].id() == id && picks(head[i], p, near[i])
                        && forall|k: int|
                        i < k < head.len() ==> !picks(#[trigger] head[k], p, near[k]);
                assert(s[i] == head[i]);
                assert forall|k: int| i < k < s.len() implies !picks(
                    #[trigger] s[k],
                    p,
                    near[k],
                ) by {
                    if k < head.len() {
                        assert(s[k] == head[k]);
                    }
                }
            } else {
                assert forall|k: int| 0 <= k < s.len() implies !picks(
                    #[trigger] s[k],
                    p,
                    near[k],
                ) by {
                    if k < head.len() {
                        assert(s[k] == head[k]);
                    }
                }
            }
        }
    }
}

/// The cursor is picked only where no annotation is, if there is one and the
/// pointer is on it.
pub proof fn law_cursor_lies_below(d: DocumentView, p: Point, near: Seq<bool>, cursor_box: Bounds)
    ensures
        picked(d, p, near, cursor_box) == Some(SelectionTarget::Cursor) <==> top_pick(
            d.annotations,
            p,
            near,
        ) is None && d.cursor is Some && cursor_box.ordered().holds(p),
        picked(d, p, near, cursor_box) matches Some(SelectionTarget::Annotation(id)) ==> top_pick(
            d.annotations,
            p,
            near,
        ) == Some(id),
        top_pick(d.annotations, p, near) matches Some(id) ==> picked(d, p, near, cursor_box)
            == Some(SelectionTarget::Annotation(id)),
{
}

/// Of the handles of a box the pointer takes the first that it is near, row by
/// row from the top left.
pub proof fn law_handles_are_taken_row_by_row(n: NearHandles, k: int)
    requires
        0 <= k < 8,
    ensures
        ({
            let all = seq![
                (Handle::NW, n.nw),
                (Handle::N, n.n),
                (Handle::NE, n.ne),
                (Handle::W, n.w),
                (Handle::E, n.e),
                (Handle::SW, n.sw),
                (Handle::S, n.s),
                (Handle::SE, n.se),
            ];
            &&& all[k].1 && (forall|j: int| 0 <= j < k ==> !(#[trigger] all[j]).1) ==> box_handle(n)
                == Some(all[k].0)
            &&& box_handle(n) is None <==> (forall|j: int| 0 <= j < 8 ==> !(#[trigger] all[j]).1)
        }),
{
    let all = seq![
        (Handle::NW, n.nw),
        (Handle::N, n.n),
        (Handle::NE, n.ne),
        (Handle::W, n.w),
        (Handle::E, n.e),
        (Handle::SW, n.sw),
        (Handle::S, n.s),
        (Handle::SE, n.se),
    ];
    assert(all[0].1 == n.nw && all[1].1 == n.n && all[2].1 == n.ne && all[3].1 == n.w && all[4].1
        == n.e && all[5].1 == n.sw && all[6].1 == n.s && all[7].1 == n.se);
}

/// An arrow is grabbed at its start, its end or its middle, which moves it
/// whole. Of another annotation the tail of a balloon comes first, then the
/// region of a loupe, then the handles of its box, and inside the box the whole.
pub proof fn law_handles_have_an_order(
    bbox: Bounds,
    source: Option<Bounds>,
    is_arrow: bool,
    is_callout: bool,
    p: Point,
    h: PickHints,
)
    ensures
        ({
            let r = handle_for(bbox, source, is_arrow, is_callout, p, h);
            let tail = is_callout && h.tail;
            let region = source is Some && source->Some_0.ordered().holds(p);
            let boxed = box_handle(h.handles);
            &&& is_arrow ==> (r == Some(Handle::ArrowStart) <==> h.arrow_start)
            &&& is_arrow ==> (r == Some(Handle::ArrowEnd) <==> h.arrow_end && !h.arrow_start)
            &&& is_arrow ==> (r == Some(Handle::Body) <==> h.arrow_mid && !h.arrow_end
                && !h.arrow_start)
            &&& is_arrow ==> (r is None <==> !h.arrow_mid && !h.arrow_end && !h.arrow_start)
            &&& !is_arrow ==> (r == Some(Handle::CalloutTail) <==> tail)
            &&& !is_arrow ==> (r == Some(Handle::MagnifySource) <==> region && !tail)
            &&& !is_arrow && !tail && !region && boxed is Some ==> r == boxed
            &&& !is_arrow && !tail && !region && boxed is None ==> (r == Some(Handle::Body)
                <==> bbox.ordered().holds(p)) && (r is None <==> !bbox.ordered().holds(p))
        }),
{
}

/// What is grabbed is remembered as it was: the annotation with its box, tail
/// and region, or the cursor's place; and where the pointer was.
pub proof fn law_grab_remembers(d: DocumentView, sel: SelectionTarget, p: Point, h: PickHints)
    ensures
        grabbed(d, sel, p, h) matches Some(a) ==> {
            &&& a.target == sel && a.anchor == p
            &&& sel matches SelectionTarget::Annotation(id) ==> {
                let n = crate::editor::session::node_with(d, id);
                &&& a.before == n && n is Some && a.before_cursor is None
                &&& n->Some_0 matches NodeView::Arrow { start, end, .. } ==> a.start_rect
                    == (Bounds { min_x: start.x, min_y: start.y, max_x: end.x, max_y: end.y })
                &&& !(n->Some_0 is Arrow) ==> Some(a.start_rect)
                    == crate::editor::tools::selection::box_of(n->Some_0, h.circle)
                &&& a.start_tail is Some <==> n->Some_0 is Callout
                &&& n->Some_0 is Callout ==> a.start_tail == Some(n->Some_0->Callout_tail)
                &&& a.start_source is Some <==> n->Some_0 is Magnify
                &&& n->Some_0 is Magnify ==> a.start_source == Some(n->Some_0->Magnify_source_rect)
                &&& !(n->Some_0 is CaptureInfo)
            }
            &&& sel is Cursor ==> d.cursor is Some && a.before is None && a.start_rect
                == h.cursor_box && a.before_cursor == Some(
                (
                    d.cursor->Some_0.x,
                    d.cursor->Some_0.y,
                    d.cursor->Some_0.width,
                    d.cursor->Some_0.height,
                ),
            )
        },
{
}

/// Pressing the button keeps what is selected, else selects what was hit; what
/// is selected then is grabbed, and nothing has moved.
pub proof fn law_press_grabs_the_selection(s: AppView, p: Point, near: Seq<bool>, h: PickHints)
    ensures
        ({
            let a = pressed(s, p, near, h);
            &&& s.selection is Some ==> a.selection == s.selection
            &&& s.selection is None ==> a.selection == picked(s.document, p, near, h.cursor_box)
            &&& a.selection is None ==> a.active_handle is None
            &&& a.selection matches Some(sel) ==> a.active_handle == grabbed(s.document, sel, p, h)
            &&& a.document == s.document && a.history == s.history && a.dirty == s.dirty
        }),
{
}

/// A marker's circle is as large as the larger half of its box, and at least
/// four pixels.
pub proof fn law_marker_radius(half_width: Px, half_height: Px)
    requires
        !half_width.is_nan(),
        !half_height.is_nan(),
    ensures
        ({
            let r = step_radius(half_width, half_height);
            &&& (Px { bits: 0x4080_0000 }).at_most(r)
            &&& half_width.at_most(r) && half_height.at_most(r)
            &&& r == half_width || r == half_height || r == (Px { bits: 0x4080_0000 })
        }),
{
}

/// Dragging a handle of a rectangle moves its sides and nothing else of the
/// annotation; dragging a tail or a loupe's region moves that alone, and an
/// arrow's end that end alone.
pub proof fn law_drag_moves_what_was_grabbed<
    F: Fn(Point) -> Point,
    C: Fn(Bounds) -> (Point, Px, Px),
>(
    shift: F,
    f: spec_fn(Point) -> Point,
    a: ActiveView,
    circle: C,
    node: NodeView,
    after: NodeView,
)
    requires
        forall|p: Point, q: Point| #[trigger]
            crate::editor::tools::selection::shifts(shift, p, q) ==> q == f(p),
        is_dragged(shift, a, circle, node, after),
    ensures
        ({
            let moved = crate::editor::tools::selection::mapped(f, a.start_rect);
            let boxed = crate::editor::tools::selection::dragged(a.start_rect, moved, a.handle);
            let now = crate::editor::tools::selection::click_box(after);
            &&& node is Shape || node is Stamp || node is Blur ==> now == Some(boxed)
            &&& node is Callout && a.handle != Handle::CalloutTail ==> now == Some(boxed)
                && after is Callout && after->Callout_tail == node->Callout_tail
            &&& node is Callout && a.handle == Handle::CalloutTail ==> now == Some(
                node->Callout_rect,
            ) && (a.start_tail matches Some(t) ==> after->Callout_tail == f(t))
            &&& node is Magnify && a.handle != Handle::MagnifySource ==> now == Some(boxed)
                && after is Magnify && after->Magnify_source_rect == node->Magnify_source_rect
            &&& node is Magnify && a.handle == Handle::MagnifySource ==> now == Some(
                node->Magnify_target_rect,
            ) && (a.start_source matches Some(b) ==> after->Magnify_source_rect
                == crate::editor::tools::selection::mapped(f, b))
            &&& node is Text ==> now == Some(
                if a.handle == Handle::Body {
                    moved
                } else {
                    node->Text_rect
                },
            )
            &&& node is CaptureInfo ==> after == node
            &&& node is Arrow ==> after is Arrow && after->Arrow_control == node->Arrow_control
            &&& node is Arrow && a.handle == Handle::ArrowStart ==> after->Arrow_end
                == node->Arrow_end && after->Arrow_start == f(
                Point { x: a.start_rect.min_x, y: a.start_rect.min_y },
            )
            &&& node is Arrow && a.handle == Handle::ArrowEnd ==> after->Arrow_start
                == node->Arrow_start && after->Arrow_end == f(
                Point { x: a.start_rect.max_x, y: a.start_rect.max_y },
            )
            &&& node is Arrow && a.handle == Handle::Body ==> after->Arrow_start == f(
                Point { x: a.start_rect.min_x, y: a.start_rect.min_y },
            ) && after->Arrow_end == f(Point { x: a.start_rect.max_x, y: a.start_rect.max_y })
            &&& crate::editor::tools::selection::click_box(node) matches Some(b)
                ==> crate::editor::tools::selection::with_rect(after, b) == node || a.handle
                == Handle::CalloutTail || a.handle == Handle::MagnifySource
        }),
{
    let b = crate::editor::tools::selection::click_box(node);
    if b is Some && !(node is Text) && is_box_dragged(shift, a, node, after) {
        let moved = choose|moved: Bounds|
            #[trigger] crate::editor::tools::selection::shifts_box(shift, a.start_rect, moved)
                && after == crate::editor::tools::selection::with_rect(
                node,
                crate::editor::tools::selection::dragged(a.start_rect, moved, a.handle),
            );
        assert(moved == crate::editor::tools::selection::mapped(f, a.start_rect));
        crate::editor::tools::selection::law_rectangle_is_replaced(
            node,
            crate::editor::tools::selection::dragged(a.start_rect, moved, a.handle),
        );
    }
}

/// A tool that draws by dragging makes the kind of annotation that it is named
/// for, where it was dragged, in the colours and sizes of the panel. A fill can
/// be seen through, or is none. The others draw nothing by dragging.
pub proof fn law_panel_tools_draw_their_own_kind(
    tool: Tool,
    d: PendingDrag,
    k: Knobs,
    other: Bounds,
    tail: Point,
    id: NodeId,
)
    ensures
        ({
            let r = drawn_with(tool, d, k, other, tail, id);
            let rect = Bounds::spanned(d.start, d.current);
            &&& r is Some <==> draws_by_drag(tool)
            &&& draws_by_drag(tool) <==> tool != Tool::Select && tool != Tool::Text && tool
                != Tool::Step && tool != Tool::CaptureInfo
            &&& r matches Some(n) ==> crate::editor::session::is_made_by(tool, n) && n.id() == id
            &&& r matches Some(NodeView::Arrow { start, end, color, thickness, control, shadow, .. })
                ==> start == d.start && end == d.current && color == k.color && thickness
                == k.thickness && control is None && !shadow
            &&& r matches Some(NodeView::Shape { rect: b, stroke, stroke_width, fill, .. }) ==> b
                == rect && stroke == k.stroke_color && stroke_width == k.thickness && (k.use_fill
                ==> fill.r == k.color.r && fill.g == k.color.g && fill.b == k.color.b && fill.a
                == 80) && (!k.use_fill ==> fill.a == 0)
            &&& r matches Some(
                NodeView::Callout { rect: b, tail: t, text, fill, stroke, stroke_width, text_size, .. },
            ) ==> b == rect && t == tail && text.len() == 4 && stroke == k.stroke_color
                && stroke_width == k.thickness && text_size == k.text_size && (k.use_fill ==> fill.r
                == k.color.r && fill.g == k.color.g && fill.b == k.color.b && fill.a == 80) && (
            !k.use_fill ==> fill.a == 0)
            &&& r matches Some(
                NodeView::Magnify { source_rect, target_rect, border, border_width, circular, .. },
            ) ==> source_rect == rect && target_rect == other && border == k.stroke_color
                && border_width == k.thickness && circular == k.magnify_circular
            &&& r matches Some(NodeView::Blur { rect: b, radius_px, .. }) ==> b == rect && (
            Px { bits: 0x3f00_0000 }).at_most(radius_px) && ((Px { bits: 0x3f00_0000 }).at_most(
                k.blur_radius,
            ) ==> radius_px.rank() == k.blur_radius.rank())
        }),
{
    reveal_strlit("Note");
}

/// A new marker has a number above all others, lies round the point that was
/// clicked, and is written on in white if it is dark, else in black.
pub proof fn law_new_marker(s: AppView, p: Point, dark: bool, id: NodeId, i: int)
    requires
        crate::editor::tools::step::largest_number(s.document.annotations) < u32::MAX,
        0 <= i < s.document.annotations.len(),
    ensures
        ({
            let m = step_placed(s, p, dark, id);
            &&& m is Step && m->Step_center == p && m.id() == id
            &&& m->Step_radius == s.knobs.step_radius && m->Step_fill == s.knobs.color
            &&& s.document.annotations[i] matches NodeView::Step { number, .. } ==> number
                < m->Step_number
            &&& m->Step_number >= 1
            &&& m->Step_text_color.a == 255
            &&& dark ==> m->Step_text_color.r == m->Step_text_color.g == m->Step_text_color.b == 255
            &&& !dark ==> m->Step_text_color.r == m->Step_text_color.g == m->Step_text_color.b == 0
        }),
{
    crate::editor::tools::step::law_next_number_is_new(s.document.annotations, i);
}

/// A click with the text tool first commits what was typed. On a text box it
/// edits that box, with its colour and size on the panel; on anything else
/// nothing; beside everything it begins a new box that is empty.
pub proof fn law_text_click(
    s: AppView,
    hit: Option<NodeId>,
    rect: Bounds,
    new_id: Option<NodeId>,
)
    ensures
        ({
            let s1 = text_committed(s, new_id);
            let c = text_clicked(s, hit, rect, new_id);
            let n = if hit is Some {
                crate::editor::session::node_with(s1.document, hit->Some_0)
            } else {
                None
            };
            &&& c.document == s1.document && c.history == s1.history
            &&& hit is None ==> c.pending_text is Some && c.pending_text->Some_0.rect == rect
                && c.pending_text->Some_0.buffer.len() == 0
                && c.pending_text->Some_0.editing_id is None && c.knobs == s1.knobs
            &&& n is Some && n->Some_0 is Text ==> c.pending_text is Some
                && c.pending_text->Some_0.rect == n->Some_0->Text_rect
                && c.pending_text->Some_0.buffer == n->Some_0->Text_text
                && c.pending_text->Some_0.editing_id == hit && c.knobs == (Knobs {
                color: n->Some_0->Text_color,
                text_size: n->Some_0->Text_size_px,
                ..s1.knobs
            })
            &&& hit is Some && !(n is Some && n->Some_0 is Text) ==> c == s1
        }),
{
}

/// The undo key takes a step back, the redo key one forward; with neither
/// nothing happens.
pub proof fn law_history_keys(s: AppView, k: Shortcuts)
    ensures
        k.undo && !k.redo ==> history_keys(s, k) == stepped_back(s),
        k.redo && !k.undo ==> history_keys(s, k) == stepped_forward(s),
        !k.undo && !k.redo ==> history_keys(s, k) == s,
        k.undo && k.redo ==> history_keys(s, k) == stepped_forward(stepped_back(s)),
{
}

/// While something is dragged the document shows it where it is, and nothing
/// else changes.
pub proof fn law_drag_shows_in_the_document(
    s: AppView,
    live: Option<NodeView>,
    cursor: Option<Placement>,
)
    ensures
        ({
            let d = dragged_along(s, live, cursor);
            &&& d == (AppView { document: d.document, ..s })
            &&& s.active_handle is None ==> d == s
            &&& s.active_handle is Some ==> (s.active_handle->Some_0.target matches SelectionTarget::Annotation(
                id,
            ) ==> d.document.cursor == s.document.cursor && (live matches Some(n) ==> d.document
                == crate::editor::session::replaced(s.document, id, n)))
            &&& s.active_handle is Some && s.active_handle->Some_0.target is Cursor
                ==> d.document.annotations == s.document.annotations
            &&& s.active_handle is Some && s.active_handle->Some_0.target is Cursor
                && cursor is Some && s.document.cursor is Some ==> d.document.cursor is Some && {
                let c = d.document.cursor->Some_0;
                let p = cursor->Some_0;
                &&& c.x == p.0 && c.y == p.1 && c.width == p.2 && c.height == p.3
                &&& c.png == s.document.cursor->Some_0.png
            }
        }),
{
}

/// The panel begins with an opaque red, near-black outlines, fills and round
/// loupes, lines of six pixels, texts of 28, markers of 24 and blurs of 12.
pub proof fn law_first_panel()
    ensures
        ({
            let k = initial_knobs();
            &&& k.color.a == 255 && crate::editor::style::packed(k.color) == 0xdc_2828
            &&& k.stroke_color.a == 255 && crate::editor::style::packed(k.stroke_color) == 0x0a_0a0a
            &&& k.use_fill && k.magnify_circular
            &&& crate::px::is_pattern_of(k.thickness.bits, 12, 2, 8)
            &&& crate::px::is_pattern_of(k.text_size.bits, 56, 4, 32)
            &&& crate::px::is_pattern_of(k.step_radius.bits, 48, 4, 32)
            &&& crate::px::is_pattern_of(k.blur_radius.bits, 24, 3, 16)
        }),
{
}

} // verus!
