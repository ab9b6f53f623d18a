//! Editor document model: the base image, an optional cursor layer, an
//! ordered list of annotations and the capture metadata.
use vstd::prelude::*;
use crate::capture::{CaptureMetadata, CaptureResult, CursorLayer, MetadataView};
use crate::codec::encode_png;
use crate::image::RgbaImage;
use crate::px::{Bounds, Point, Px, Rgba, BITS_0, BITS_6, BITS_8, BITS_14, BITS_18};

verus! {

/// Serialization version of the document format.
pub const DOCUMENT_SCHEMA_VERSION: u32 = 4;

/// Identity of a document or of an annotation: a 128-bit UUID.
#[derive(Debug, Clone, Copy, PartialEq, Eq, Structural)]
pub struct NodeId {
    pub value: u128,
}

/// Whether a UUID carries the version 4 and the RFC variant.
pub open spec fn is_random_uuid(v: u128) -> bool {
    &&& (v >> 76) & 0xf == 4
    &&& (v >> 62) & 0x3 == 2
}

/// A fresh random identity from `uuid`'s `Uuid::new_v4`. The bits are chance,
/// but for the version (4) and the variant (binary 10).
#[verifier::external_body]
pub(crate) fn random_uuid() -> (r: u128)
    ensures
        is_random_uuid(r),
{
    uuid::Uuid::new_v4().as_u128()
}

impl NodeId {
    /// A fresh random identity.
    pub fn random() -> (r: Self)
        ensures
            is_random_uuid(r.value),
    {
        NodeId { value: random_uuid() }
    }
}

/// A captured cursor image, PNG-encoded, with its place on the base image.
#[derive(Debug)]
pub struct SerializedCursor {
    pub png: Vec<u8>,
    pub width: u32,
    pub height: u32,
    /// Position of cursor top-left, relative to the base image's top-left.
    pub x: i32,
    pub y: i32,
}

/// A serialized cursor as plain values.
pub struct CursorView {
    pub png: Seq<u8>,
    pub width: u32,
    pub height: u32,
    pub x: i32,
    pub y: i32,
}

impl View for SerializedCursor {
    type V = CursorView;

    open spec fn view(&self) -> CursorView {
        CursorView {
            png: self.png@,
            width: self.width,
            height: self.height,
            x: self.x,
            y: self.y,
        }
    }
}

/// A copy of a byte list.
pub fn copy_bytes(v: &Vec<u8>) -> (r: Vec<u8>)
    ensures
        r@ == v@,
{
    let mut out: Vec<u8> = Vec::new();
    let mut i: usize = 0;
    while i < v.len()
        invariant
            i <= v@.len(),
            out@ == v@.take(i as int),
        decreases v@.len() - i,
    {
        out.push(v[i]);
        i += 1;
        assert(v@.take(i as int) =~= v@.take(i - 1).push(v@[i - 1]));
    }
    assert(v@.take(i as int) =~= v@);
    out
}

impl Clone for SerializedCursor {
    fn clone(&self) -> (r: Self)
        ensures
            r@ == self@,
    {
        SerializedCursor {
            png: copy_bytes(&self.png),
            width: self.width,
            height: self.height,
            x: self.x,
            y: self.y,
        }
    }
}

/// Kind of the `Shape` annotation.
#[derive(Debug, Clone, Copy, PartialEq, Eq, Structural)]
pub enum ShapeKind {
    Rect,
    Ellipse,
}

/// Which fields a capture-info stamp shows.
#[derive(Debug, Clone, Copy, PartialEq, Eq, Structural)]
pub enum FieldKind {
    Timestamp,
    WindowTitle,
    ProcessName,
    OsVersion,
    MonitorInfo,
}

impl FieldKind {
    pub open spec fn text(self) -> Seq<char> {
        match self {
            FieldKind::Timestamp => "Timestamp"@,
            FieldKind::WindowTitle => "Window title"@,
            FieldKind::ProcessName => "Process name"@,
            FieldKind::OsVersion => "OS version"@,
            FieldKind::MonitorInfo => "Monitor info"@,
        }
    }

    pub fn label(self) -> (r: &'static str)
        ensures
            r@ == self.text(),
    {
        match self {
            FieldKind::Timestamp => "Timestamp",
            FieldKind::WindowTitle => "Window title",
            FieldKind::ProcessName => "Process name",
            FieldKind::OsVersion => "OS version",
            FieldKind::MonitorInfo => "Monitor info",
        }
    }
}

/// Anchor for a capture-info stamp on the base image.
#[derive(Debug, Clone, Copy, PartialEq, Eq, Structural)]
pub enum CaptureInfoPosition {
    TopLeft,
    TopRight,
    BottomLeft,
    BottomRight,
}

impl CaptureInfoPosition {
    pub open spec fn text(self) -> Seq<char> {
        match self {
            CaptureInfoPosition::TopLeft => "Top left"@,
            CaptureInfoPosition::TopRight => "Top right"@,
            CaptureInfoPosition::BottomLeft => "Bottom left"@,
            CaptureInfoPosition::BottomRight => "Bottom right"@,
        }
    }

    pub fn label(self) -> (r: &'static str)
        ensures
            r@ == self.text(),
    {
        match self {
            CaptureInfoPosition::TopLeft => "Top left",
            CaptureInfoPosition::TopRight => "Top right",
            CaptureInfoPosition::BottomLeft => "Bottom left",
            CaptureInfoPosition::BottomRight => "Bottom right",
        }
    }
}

/// Style bundle for the capture-info banner.
#[derive(Debug, Clone, Copy, PartialEq, Eq, Structural)]
pub struct CaptureInfoStyle {
    /// Box fill.
    pub fill: Rgba,
    pub text_color: Rgba,
    /// Font size in image pixels.
    pub text_size: Px,
    /// Inner padding on all sides (image pixels).
    pub padding: Px,
}

impl Default for CaptureInfoStyle {
    fn default() -> (r: Self)
        ensures
            r == (CaptureInfoStyle {
                fill: Rgba { r: 20, g: 20, b: 20, a: 200 },
                text_color: Rgba { r: 240, g: 240, b: 240, a: 255 },
                text_size: Px { bits: BITS_14 },
                padding: Px { bits: BITS_8 },
            }),
    {
        CaptureInfoStyle {
            fill: Rgba { r: 20, g: 20, b: 20, a: 200 },
            text_color: Rgba { r: 240, g: 240, b: 240, a: 255 },
            text_size: Px { bits: BITS_14 },
            padding: Px { bits: BITS_8 },
        }
    }
}

/// An edge of the base image.
#[derive(Debug, Clone, Copy, PartialEq, Eq, Structural)]
pub enum Edge {
    Top,
    Bottom,
    Left,
    Right,
}

/// Torn-edge effect applied at flatten-time. The four flags pick the edges;
/// when none is set, `edge` alone is torn.
#[derive(Debug, Clone, Copy, PartialEq, Eq, Structural)]
pub struct EdgeEffect {
    pub edge: Edge,
    pub top: bool,
    pub bottom: bool,
    pub left: bool,
    pub right: bool,
    /// How far the teeth extend into the image (image pixels).
    pub depth: Px,
    /// Tooth period in image pixels: distance between peaks.
    pub teeth: Px,
}

impl EdgeEffect {
    pub open spec fn any_flag(self) -> bool {
        self.top || self.bottom || self.left || self.right
    }

    /// Whether this effect tears the given edge.
    pub open spec fn tears(self, e: Edge) -> bool {
        if self.any_flag() {
            match e {
                Edge::Top => self.top,
                Edge::Bottom => self.bottom,
                Edge::Left => self.left,
                Edge::Right => self.right,
            }
        } else {
            e == self.edge
        }
    }

    /// The torn edges, in the order top, bottom, left, right.
    pub fn active_edges(&self) -> (r: Vec<Edge>)
        ensures
            r@.no_duplicates(),
            forall|e: Edge| r@.contains(e) == self.tears(e),
            r@ == seq![Edge::Top, Edge::Bottom, Edge::Left, Edge::Right].filter(
                |e: Edge| self.tears(e),
            ),
    {
        let none = !(self.top || self.bottom || self.left || self.right);
        let mut out: Vec<Edge> = Vec::new();
        let ghost all = seq![Edge::Top, Edge::Bottom, Edge::Left, Edge::Right];
        let ghost torn = |e: Edge| self.tears(e);
        proof {
            reveal_with_fuel(Seq::filter, 5);
            assert(all.drop_last() =~= seq![Edge::Top, Edge::Bottom, Edge::Left]);
            assert(all.drop_last().drop_last() =~= seq![Edge::Top, Edge::Bottom]);
            assert(all.drop_last().drop_last().drop_last() =~= seq![Edge::Top]);
            assert(all.drop_last().drop_last().drop_last().drop_last() =~= Seq::<Edge>::empty());
        }
        if self.top || (none && self.edge == Edge::Top) {
            out.push(Edge::Top);
        }
        if self.bottom || (none && self.edge == Edge::Bottom) {
            out.push(Edge::Bottom);
        }
        if self.left || (none && self.edge == Edge::Left) {
            out.push(Edge::Left);
        }
        if self.right || (none && self.edge == Edge::Right) {
            out.push(Edge::Right);
        }
        proof {
            assert(out@ =~= all.filter(torn));
            assert forall|e: Edge| out@.contains(e) == self.tears(e) by {
                if self.tears(e) {
                    assert(all[0] == Edge::Top && all[1] == Edge::Bottom && all[2] == Edge::Left
                        && all[3] == Edge::Right);
                    assert(all.contains(e));
                    all.lemma_filter_contains_rev(torn, e);
                } else if out@.contains(e) {
                    let k = choose|k: int| 0 <= k < out@.len() && out@[k] == e;
                    assert(torn(all.filter(torn)[k]));
                }
            }
        }
        out
    }
}

/// The torn edge that is put on first.
pub open spec fn default_edge() -> EdgeEffect {
    EdgeEffect {
        edge: Edge::Bottom,
        top: false,
        bottom: false,
        left: false,
        right: false,
        depth: Px { bits: BITS_14 },
        teeth: Px { bits: BITS_18 },
    }
}

impl Default for EdgeEffect {
    fn default() -> (r: Self)
        ensures
            r == default_edge(),
    {
        EdgeEffect {
            edge: Edge::Bottom,
            top: false,
            bottom: false,
            left: false,
            right: false,
            depth: Px { bits: BITS_14 },
            teeth: Px { bits: BITS_18 },
        }
    }
}

/// Image border with an inner matte and an optional drop shadow.
#[derive(Debug, Clone, Copy, PartialEq, Eq, Structural)]
pub struct Border {
    pub color: Rgba,
    pub width: Px,
    pub shadow_radius: Px,
    pub shadow_offset: Point,
    pub shadow_color: Rgba,
    pub matte_width: Px,
    pub matte_color: Rgba,
}

/// The border that is put on first.
pub open spec fn default_border() -> Border {
    Border {
        color: Rgba { r: 30, g: 30, b: 30, a: 255 },
        width: Px { bits: BITS_6 },
        shadow_radius: Px { bits: BITS_0 },
        shadow_offset: Point { x: Px { bits: BITS_0 }, y: Px { bits: BITS_0 } },
        shadow_color: Rgba { r: 0, g: 0, b: 0, a: 128 },
        matte_width: Px { bits: BITS_0 },
        matte_color: Rgba { r: 245, g: 240, b: 230, a: 255 },
    }
}

impl Default for Border {
    fn default() -> (r: Self)
        ensures
            r == default_border(),
    {
        Border {
            color: Rgba { r: 30, g: 30, b: 30, a: 255 },
            width: Px { bits: BITS_6 },
            shadow_radius: Px { bits: BITS_0 },
            shadow_offset: Point { x: Px { bits: BITS_0 }, y: Px { bits: BITS_0 } },
            shadow_color: Rgba { r: 0, g: 0, b: 0, a: 128 },
            matte_width: Px { bits: BITS_0 },
            matte_color: Rgba { r: 245, g: 240, b: 230, a: 255 },
        }
    }
}

/// A built-in stamp, or a user-supplied PNG.
#[derive(Debug)]
pub enum StampSource {
    /// References a stamp shipped with the program.
    Builtin { name: String },
    /// Inlined PNG bytes.
    Inline { png: Vec<u8> },
}

/// A stamp source as plain values.
pub enum StampView {
    Builtin { name: Seq<char> },
    Inline { png: Seq<u8> },
}

impl View for StampSource {
    type V = StampView;

    open spec fn view(&self) -> StampView {
        match self {
            StampSource::Builtin { name } => StampView::Builtin { name: name@ },
            StampSource::Inline { png } => StampView::Inline { png: png@ },
        }
    }
}

impl Clone for StampSource {
    fn clone(&self) -> (r: Self)
        ensures
            r@ == self@,
    {
        match self {
            StampSource::Builtin { name } => StampSource::Builtin { name: name.clone() },
            StampSource::Inline { png } => StampSource::Inline { png: copy_bytes(png) },
        }
    }
}

/// Horizontal text alignment inside a text box.
#[derive(Debug, Clone, Copy, PartialEq, Eq, Structural)]
pub enum TextAlign {
    Left,
    Center,
    Right,
}

impl Default for TextAlign {
    fn default() -> (r: Self)
        ensures
            r == TextAlign::Left,
    {
        TextAlign::Left
    }
}

/// Shaft dash pattern of an arrow.
#[derive(Debug, Clone, Copy, PartialEq, Eq, Structural)]
pub enum ArrowLineStyle {
    Solid,
    Dashed,
    Dotted,
}

impl Default for ArrowLineStyle {
    fn default() -> (r: Self)
        ensures
            r == ArrowLineStyle::Solid,
    {
        ArrowLineStyle::Solid
    }
}

/// Head rendering of an arrow.
#[derive(Debug, Clone, Copy, PartialEq, Eq, Structural)]
pub enum ArrowHeadStyle {
    FilledTriangle,
    /// Triangle stroked but not filled.
    OutlineTriangle,
    /// Two short strokes forming a chevron.
    LineOnly,
    /// No head at all, just a line.
    NoHead,
    /// Filled triangle at both endpoints.
    DoubleEnded,
}

impl Default for ArrowHeadStyle {
    fn default() -> (r: Self)
        ensures
            r == ArrowHeadStyle::FilledTriangle,
    {
        ArrowHeadStyle::FilledTriangle
    }
}

/// Per-paragraph list style of a text box.
#[derive(Debug, Clone, Copy, PartialEq, Eq, Structural)]
pub enum TextListStyle {
    Plain,
    Bullet,
    Numbered,
}

impl Default for TextListStyle {
    fn default() -> (r: Self)
        ensures
            r == TextListStyle::Plain,
    {
        TextListStyle::Plain
    }
}

/// Annotation of a document. All coordinates are in image-pixel space.
#[derive(Debug)]
pub enum AnnotationNode {
    Arrow {
        id: NodeId,
        start: Point,
        end: Point,
        color: Rgba,
        thickness: Px,
        shadow: bool,
        line_style: ArrowLineStyle,
        head_style: ArrowHeadStyle,
        /// Control point of a quadratic curve; `None` for a straight arrow.
        control: Option<Point>,
    },
    Text {
        id: NodeId,
        rect: Bounds,
        text: String,
        color: Rgba,
        size_px: Px,
        frosted: bool,
        shadow: bool,
        align: TextAlign,
        list: TextListStyle,
    },
    /// Speech balloon with a tail.
    Callout {
        id: NodeId,
        rect: Bounds,
        tail: Point,
        text: String,
        fill: Rgba,
        stroke: Rgba,
        stroke_width: Px,
        text_color: Rgba,
        text_size: Px,
    },
    /// Rectangle or ellipse with an outline and optional fill.
    Shape {
        id: NodeId,
        shape: ShapeKind,
        rect: Bounds,
        stroke: Rgba,
        stroke_width: Px,
        /// An alpha of 0 means "no fill".
        fill: Rgba,
    },
    /// Numbered step marker: a filled circle with a centered number.
    Step {
        id: NodeId,
        center: Point,
        radius: Px,
        number: u32,
        fill: Rgba,
        text_color: Rgba,
    },
    /// PNG sticker.
    Stamp { id: NodeId, source: StampSource, rect: Bounds },
    /// Loupe: the pixels of `source_rect` scaled into `target_rect`.
    Magnify {
        id: NodeId,
        source_rect: Bounds,
        target_rect: Bounds,
        border: Rgba,
        border_width: Px,
        circular: bool,
    },
    /// Gaussian blur over a region of the base image.
    Blur { id: NodeId, rect: Bounds, radius_px: Px },
    /// Capture-info banner.
    CaptureInfo {
        id: NodeId,
        position: CaptureInfoPosition,
        fields: Vec<FieldKind>,
        style: CaptureInfoStyle,
    },
}

/// An annotation as plain values.
pub enum NodeView {
    Arrow {
        id: NodeId,
        start: Point,
        end: Point,
        color: Rgba,
        thickness: Px,
        shadow: bool,
        line_style: ArrowLineStyle,
        head_style: ArrowHeadStyle,
        control: Option<Point>,
    },
    Text {
        id: NodeId,
        rect: Bounds,
        text: Seq<char>,
        color: Rgba,
        size_px: Px,
        frosted: bool,
        shadow: bool,
        align: TextAlign,
        list: TextListStyle,
    },
    Callout {
        id: NodeId,
        rect: Bounds,
        tail: Point,
        text: Seq<char>,
        fill: Rgba,
        stroke: Rgba,
        stroke_width: Px,
        text_color: Rgba,
        text_size: Px,
    },
    Shape {
        id: NodeId,
        shape: ShapeKind,
        rect: Bounds,
        stroke: Rgba,
        stroke_width: Px,
        fill: Rgba,
    },
    Step {
        id: NodeId,
        center: Point,
        radius: Px,
        number: u32,
        fill: Rgba,
        text_color: Rgba,
    },
    Stamp { id: NodeId, source: StampView, rect: Bounds },
    Magnify {
        id: NodeId,
        source_rect: Bounds,
        target_rect: Bounds,
        border: Rgba,
        border_width: Px,
        circular: bool,
    },
    Blur { id: NodeId, rect: Bounds, radius_px: Px },
    CaptureInfo {
        id: NodeId,
        position: CaptureInfoPosition,
        fields: Seq<FieldKind>,
        style: CaptureInfoStyle,
    },
}

impl NodeView {
    pub open spec fn id(self) -> NodeId {
        match self {
            NodeView::Arrow { id, .. } => id,
            NodeView::Text { id, .. } => id,
            NodeView::Callout { id, .. } => id,
            NodeView::Shape { id, .. } => id,
            NodeView::Step { id, .. } => id,
            NodeView::Stamp { id, .. } => id,
            NodeView::Magnify { id, .. } => id,
            NodeView::Blur { id, .. } => id,
            NodeView::CaptureInfo { id, .. } => id,
        }
    }
}

impl View for AnnotationNode {
    type V = NodeView;

    open spec fn view(&self) -> NodeView {
        match *self {
            AnnotationNode::Arrow {
                id,
                start,
                end,
                color,
                thickness,
                shadow,
                line_style,
                head_style,
                control,
            } => NodeView::Arrow {
                id,
                start,
                end,
                color,
                thickness,
                shadow,
                line_style,
                head_style,
                control,
            },
            AnnotationNode::Text { id, rect, text, color, size_px, frosted, shadow, align, list } =>
            NodeView::Text {
                id,
                rect,
                text: text@,
                color,
                size_px,
                frosted,
                shadow,
                align,
                list,
            },
            AnnotationNode::Callout {
                id,
                rect,
                tail,
                text,
                fill,
                stroke,
                stroke_width,
                text_color,
                text_size,
            } => NodeView::Callout {
                id,
                rect,
                tail,
                text: text@,
                fill,
                stroke,
                stroke_width,
                text_color,
                text_size,
            },
            AnnotationNode::Shape { id, shape, rect, stroke, stroke_width, fill } =>
            NodeView::Shape { id, shape, rect, stroke, stroke_width, fill },
            AnnotationNode::Step { id, center, radius, number, fill, text_color } =>
            NodeView::Step { id, center, radius, number, fill, text_color },
            AnnotationNode::Stamp { id, source, rect } => NodeView::Stamp {
                id,
                source: source@,
                rect,
            },
            AnnotationNode::Magnify {
                id,
                source_rect,
                target_rect,
                border,
                border_width,
                circular,
            } => NodeView::Magnify { id, source_rect, target_rect, border, border_width, circular },
            AnnotationNode::Blur { id, rect, radius_px } => NodeView::Blur { id, rect, radius_px },
            AnnotationNode::CaptureInfo { id, position, fields, style } => NodeView::CaptureInfo {
                id,
                position,
                fields: fields@,
                style,
            },
        }
    }
}

/// The views of a list of annotations.
pub open spec fn node_views(v: Seq<AnnotationNode>) -> Seq<NodeView> {
    v.map_values(|n: AnnotationNode| n@)
}

/// A copy of a list of fields.
pub fn copy_fields(v: &Vec<FieldKind>) -> (r: Vec<FieldKind>)
    ensures
        r@ == v@,
{
    let mut out: Vec<FieldKind> = Vec::new();
    let mut i: usize = 0;
    while i < v.len()
        invariant
            i <= v@.len(),
            out@ == v@.take(i as int),
        decreases v@.len() - i,
    {
        out.push(v[i]);
        i += 1;
        assert(v@.take(i as int) =~= v@.take(i - 1).push(v@[i - 1]));
    }
    assert(v@.take(i as int) =~= v@);
    out
}

impl AnnotationNode {
    /// The identity of the annotation.
    pub fn id(&self) -> (r: NodeId)
        ensures
            r == self@.id(),
    {
        match self {
            AnnotationNode::Arrow { id, .. } => *id,
            AnnotationNode::Text { id, .. } => *id,
            AnnotationNode::Callout { id, .. } => *id,
            AnnotationNode::Shape { id, .. } => *id,
            AnnotationNode::Step { id, .. } => *id,
            AnnotationNode::Stamp { id, .. } => *id,
            AnnotationNode::Magnify { id, .. } => *id,
            AnnotationNode::Blur { id, .. } => *id,
            AnnotationNode::CaptureInfo { id, .. } => *id,
        }
    }
}

impl Clone for AnnotationNode {
    fn clone(&self) -> (r: Self)
        ensures
            r@ == self@,
    {
        match self {
            AnnotationNode::Arrow {
                id,
                start,
                end,
                color,
                thickness,
                shadow,
                line_style,
                head_style,
                control,
            } => AnnotationNode::Arrow {
                id: *id,
                start: *start,
                end: *end,
                color: *color,
                thickness: *thickness,
                shadow: *shadow,
                line_style: *line_style,
                head_style: *head_style,
                control: *control,
            },
            AnnotationNode::Text { id, rect, text, color, size_px, frosted, shadow, align, list } =>
            AnnotationNode::Text {
                id: *id,
                rect: *rect,
                text: text.clone(),
                color: *color,
                size_px: *size_px,
                frosted: *frosted,
                shadow: *shadow,
                align: *align,
                list: *list,
            },
            AnnotationNode::Callout {
                id,
                rect,
                tail,
                text,
                fill,
                stroke,
                stroke_width,
                text_color,
                text_size,
            } => AnnotationNode::Callout {
                id: *id,
                rect: *rect,
                tail: *tail,
                text: text.clone(),
                fill: *fill,
                stroke: *stroke,
                stroke_width: *stroke_width,
                text_color: *text_color,
                text_size: *text_size,
            },
            AnnotationNode::Shape { id, shape, rect, stroke, stroke_width, fill } =>
            AnnotationNode::Shape {
                id: *id,
                shape: *shape,
                rect: *rect,
                stroke: *stroke,
                stroke_width: *stroke_width,
                fill: *fill,
            },
            AnnotationNode::Step { id, center, radius, number, fill, text_color } =>
            AnnotationNode::Step {
                id: *id,
                center: *center,
                radius: *radius,
                number: *number,
                fill: *fill,
                text_color: *text_color,
            },
            AnnotationNode::Stamp { id, source, rect } => AnnotationNode::Stamp {
                id: *id,
                source: source.clone(),
                rect: *rect,
            },
            AnnotationNode::Magnify {
                id,
                source_rect,
                target_rect,
                border,
                border_width,
                circular,
            } => AnnotationNode::Magnify {
                id: *id,
                source_rect: *source_rect,
                target_rect: *target_rect,
                border: *border,
                border_width: *border_width,
                circular: *circular,
            },
            AnnotationNode::Blur { id, rect, radius_px } => AnnotationNode::Blur {
                id: *id,
                rect: *rect,
                radius_px: *radius_px,
            },
            AnnotationNode::CaptureInfo { id, position, fields, style } =>
            AnnotationNode::CaptureInfo {
                id: *id,
                position: *position,
                fields: copy_fields(fields),
                style: *style,
            },
        }
    }
}

/// What the editor works on and a `.grabit` file stores.
#[derive(Debug)]
pub struct Document {
    pub schema_version: u32,
    pub id: NodeId,
    /// PNG-encoded base image.
    pub base_png: Vec<u8>,
    pub base_width: u32,
    pub base_height: u32,
    pub cursor: Option<SerializedCursor>,
    /// Bottom of the stack first.
    pub annotations: Vec<AnnotationNode>,
    pub metadata: CaptureMetadata,
    pub edge_effect: Option<EdgeEffect>,
    pub border: Option<Border>,
}

/// The view of an optional cursor.
pub open spec fn cursor_view(c: Option<SerializedCursor>) -> Option<CursorView> {
    match c {
        Some(c) => Some(c@),
        None => None,
    }
}

/// A document as plain values.
#[verifier::ext_equal]
pub struct DocumentView {
    pub schema_version: u32,
    pub id: NodeId,
    pub base_png: Seq<u8>,
    pub base_width: u32,
    pub base_height: u32,
    pub cursor: Option<CursorView>,
    pub annotations: Seq<NodeView>,
    pub metadata: MetadataView,
    pub edge_effect: Option<EdgeEffect>,
    pub border: Option<Border>,
}

impl View for Document {
    type V = DocumentView;

    open spec fn view(&self) -> DocumentView {
        DocumentView {
            schema_version: self.schema_version,
            id: self.id,
            base_png: self.base_png@,
            base_width: self.base_width,
            base_height: self.base_height,
            cursor: cursor_view(self.cursor),
            annotations: node_views(self.annotations@),
            metadata: self.metadata@,
            edge_effect: self.edge_effect,
            border: self.border,
        }
    }
}

/// The position of the first annotation with this identity, or the length.
pub open spec fn position_of(s: Seq<NodeView>, id: NodeId) -> int
    decreases s.len(),
{
    if s.len() == 0 {
        0
    } else {
        let p = position_of(s.drop_last(), id);
        if p < s.len() - 1 || s.last().id() == id {
            p
        } else {
            s.len() as int
        }
    }
}

/// Whether an annotation with this identity is in the list.
pub open spec fn has_id(s: Seq<NodeView>, id: NodeId) -> bool {
    exists|i: int| 0 <= i < s.len() && (#[trigger] s[i]).id() == id
}

/// What `position_of` is: the first match, when there is one.
pub proof fn lemma_position_of(s: Seq<NodeView>, id: NodeId)
    ensures
        0 <= position_of(s, id) <= s.len(),
        has_id(s, id) == (position_of(s, id) < s.len()),
        position_of(s, id) < s.len() ==> s[position_of(s, id)].id() == id,
        forall|k: int| 0 <= k < position_of(s, id) ==> (#[trigger] s[k]).id() != id,
    decreases s.len(),
{
    if s.len() > 0 {
        let front = s.drop_last();
        lemma_position_of(front, id);
        let p = position_of(s, id);
        assert forall|k: int| 0 <= k < p implies (#[trigger] s[k]).id() != id by {
            if k < front.len() {
                assert(front[k] == s[k]);
            }
        }
        if p < s.len() {
            if p < front.len() {
                assert(front[p] == s[p]);
            }
            assert(s[p].id() == id);
        }
    }
}

/// A position that is the first match is `position_of`.
pub proof fn lemma_position_is(s: Seq<NodeView>, id: NodeId, p: int)
    requires
        0 <= p <= s.len(),
        p < s.len() ==> s[p].id() == id,
        forall|k: int| 0 <= k < p ==> (#[trigger] s[k]).id() != id,
    ensures
        position_of(s, id) == p,
{
    lemma_position_of(s, id);
    let q = position_of(s, id);
    if q < p {
        assert(s[q].id() != id);
    }
    if p < q {
        assert(s[p].id() != id);
    }
}

/// Finds the first annotation with this identity.
pub fn find_position(annotations: &Vec<AnnotationNode>, id: NodeId) -> (r: Option<usize>)
    ensures
        match r {
            Some(i) => i < annotations@.len() && i == position_of(node_views(annotations@), id)
                && has_id(node_views(annotations@), id),
            None => position_of(node_views(annotations@), id) == annotations@.len() && !has_id(
                node_views(annotations@),
                id,
            ),
        },
{
    let mut i: usize = 0;
    let ghost views = node_views(annotations@);
    while i < annotations.len()
        invariant
            i <= annotations@.len(),
            views == node_views(annotations@),
            forall|k: int| 0 <= k < i ==> (#[trigger] views[k]).id() != id,
        decreases annotations@.len() - i,
    {
        assert(views[i as int] == annotations@[i as int]@);
        if annotations[i].id() == id {
            proof {
                lemma_position_is(views, id, i as int);
            }
            return Some(i);
        }
        i += 1;
    }
    proof {
        lemma_position_is(views, id, i as int);
        lemma_position_of(views, id);
    }
    None
}

// ---------------------------------------------------------------------------
// From a capture
// ---------------------------------------------------------------------------

/// Which image of a capture the PNG encoder refused.
#[derive(Debug, Clone, Copy, PartialEq, Eq, Structural)]
pub enum EncodeFault {
    Base,
    Cursor,
}

/// The PNG file of an image.
pub open spec fn png_of(img: RgbaImage) -> Option<Seq<u8>> {
    crate::codec::encoded_png(img.width, img.height, img.raw@)
}

/// The serialized form of a cursor layer, given its PNG file.
pub open spec fn serialized(c: CursorLayer, png: Seq<u8>) -> CursorView {
    CursorView { png, width: c.image.width, height: c.image.height, x: c.x, y: c.y }
}

/// The document of a capture under the given identity: the encoded images, the
/// metadata, no annotations and no effects.
pub open spec fn document_of(result: CaptureResult, id: NodeId) -> Result<
    DocumentView,
    EncodeFault,
> {
    match png_of(result.base) {
        None => Err(EncodeFault::Base),
        Some(base) => {
            if result.cursor matches Some(c) && png_of(c.image) is None {
                Err(EncodeFault::Cursor)
            } else {
                Ok(
                    DocumentView {
                        schema_version: DOCUMENT_SCHEMA_VERSION,
                        id,
                        base_png: base,
                        base_width: result.base.width,
                        base_height: result.base.height,
                        cursor: match result.cursor {
                            Some(c) => Some(serialized(c, png_of(c.image)->0)),
                            None => None,
                        },
                        annotations: Seq::empty(),
                        metadata: result.metadata@,
                        edge_effect: None,
                        border: None,
                    },
                )
            }
        },
    }
}

/// The view of the outcome of building a document.
pub open spec fn outcome_view(r: Result<Document, EncodeFault>) -> Result<
    DocumentView,
    EncodeFault,
> {
    match r {
        Ok(d) => Ok(d@),
        Err(e) => Err(e),
    }
}

/// Whether the images of a capture are well formed.
pub open spec fn capture_wf(result: &CaptureResult) -> bool {
    &&& result.base.wf()
    &&& result.cursor matches Some(c) ==> c.image.wf()
}

/// Whether a document holds the pictures of a capture: its files are read as them.
pub open spec fn holds_capture(d: DocumentView, result: &CaptureResult) -> bool {
    &&& crate::codec::reads_as(d.base_png, &result.base)
    &&& match (d.cursor, result.cursor) {
        (Some(s), Some(c)) => crate::codec::reads_as(s.png, &c.image),
        (None, None) => true,
        _ => false,
    }
}

/// Whether the pictures of a capture have pixels, and no more than can be read back.
pub open spec fn is_ordinary_capture(result: &CaptureResult) -> bool {
    &&& crate::codec::is_ordinary(&result.base)
    &&& result.cursor matches Some(c) ==> crate::codec::is_ordinary(&c.image)
}

/// Builds the document of a capture under the given identity.
pub fn document_with_id(result: &CaptureResult, id: NodeId) -> (r: Result<Document, EncodeFault>)
    requires
        capture_wf(result),
    ensures
        outcome_view(r) == document_of(*result, id),
        is_ordinary_capture(result) ==> r is Ok && holds_capture(r->Ok_0@, result),
{
    let base_png = match encode_png(&result.base) {
        Some(b) => b,
        None => {
            return Err(EncodeFault::Base);
        },
    };
    let cursor = match &result.cursor {
        Some(c) => match encode_png(&c.image) {
            Some(png) => Some(
                SerializedCursor {
                    png,
                    width: c.image.width,
                    height: c.image.height,
                    x: c.x,
                    y: c.y,
                },
            ),
            None => {
                return Err(EncodeFault::Cursor);
            },
        },
        None => None,
    };
    let d = Document {
        schema_version: DOCUMENT_SCHEMA_VERSION,
        id,
        base_png,
        base_width: result.base.width,
        base_height: result.base.height,
        cursor,
        annotations: Vec::new(),
        metadata: result.metadata.clone(),
        edge_effect: None,
        border: None,
    };
    assert(d@.annotations =~= Seq::empty());
    Ok(d)
}

/// Builds a fresh document from a capture. Annotations start empty.
pub fn from_capture(result: &CaptureResult) -> (r: Result<Document, EncodeFault>)
    requires
        capture_wf(result),
    ensures
        exists|id: NodeId| #[trigger]
            is_random_uuid(id.value) && outcome_view(r) == document_of(*result, id),
        is_ordinary_capture(result) ==> r is Ok && holds_capture(r->Ok_0@, result),
{
    let id = NodeId::random();
    document_with_id(result, id)
}

/// A node is found at the first place with its id; a place past the end means
/// that none has it.
pub proof fn law_found_at_the_first_place(s: Seq<NodeView>, id: NodeId)
    ensures
        0 <= position_of(s, id) <= s.len(),
        position_of(s, id) < s.len() ==> s[position_of(s, id)].id() == id,
        forall|i: int| 0 <= i < position_of(s, id) ==> (#[trigger] s[i]).id() != id,
        has_id(s, id) <==> position_of(s, id) < s.len(),
    decreases s.len(),
{
    if s.len() > 0 {
        law_found_at_the_first_place(s.drop_last(), id);
        let p = position_of(s, id);
        assert forall|i: int| 0 <= i < p implies (#[trigger] s[i]).id() != id by {
            if i < s.len() - 1 {
                assert(s.drop_last()[i] == s[i]);
            }
        }
        if p < s.len() - 1 {
            assert(s.drop_last()[p] == s[p]);
        }
    }
}

/// A document made of a capture has its size, its cursor where it was, and its
/// metadata; nothing is drawn on it yet, and no effect is set. It fails only
/// where a picture cannot be encoded, the base before the cursor.
pub proof fn law_document_is_what_was_captured(result: CaptureResult, id: NodeId)
    ensures
        ({
            let base = crate::codec::encoded_png(
                result.base.width,
                result.base.height,
                result.base.raw@,
            );
            &&& document_of(result, id) == Err::<DocumentView, EncodeFault>(EncodeFault::Base)
                <==> base is None
            &&& document_of(result, id) is Err && base is Some ==> document_of(result, id)->Err_0
                == EncodeFault::Cursor && result.cursor is Some
            &&& document_of(result, id) matches Ok(d) ==> {
                &&& d.id == id && d.schema_version == 4
                &&& d.base_width == result.base.width && d.base_height == result.base.height
                &&& Some(d.base_png) == base
                &&& d.annotations.len() == 0
                &&& d.metadata == result.metadata@
                &&& d.edge_effect is None && d.border is None
                &&& d.cursor is Some <==> result.cursor is Some
                &&& result.cursor matches Some(c) ==> {
                    let s = d.cursor->Some_0;
                    &&& s.x == c.x && s.y == c.y
                    &&& s.width == c.image.width && s.height == c.image.height
                    &&& Some(s.png) == crate::codec::encoded_png(
                        c.image.width,
                        c.image.height,
                        c.image.raw@,
                    )
                }
            }
        }),
{
}

/// The label of a corner names its row, then its side.
pub proof fn law_corner_labels(p: CaptureInfoPosition)
    ensures
        p.text() == (if p is TopLeft || p is TopRight {
            "Top"@
        } else {
            "Bottom"@
        }) + " "@ + (if p is TopLeft || p is BottomLeft {
            "left"@
        } else {
            "right"@
        }),
{
    reveal_strlit("Top");
    reveal_strlit("Bottom");
    reveal_strlit(" ");
    reveal_strlit("left");
    reveal_strlit("right");
    reveal_strlit("Top left");
    reveal_strlit("Top right");
    reveal_strlit("Bottom left");
    reveal_strlit("Bottom right");
    assert(p.text() =~= (if p is TopLeft || p is TopRight {
        "Top"@
    } else {
        "Bottom"@
    }) + " "@ + (if p is TopLeft || p is BottomLeft {
        "left"@
    } else {
        "right"@
    }));
}

/// A new border is a frame alone: opaque, six pixels wide, with no matte, no
/// blur and no offset, so that it casts no shadow. A new torn edge tears the
/// bottom and no other side, less deep than its teeth are wide.
pub proof fn law_new_effects(e: Edge)
    ensures
        default_edge().tears(e) <==> e == Edge::Bottom,
        default_edge().depth.at_most(default_edge().teeth),
        crate::px::is_pattern_of(default_edge().depth.bits, 28, 3, 16),
        crate::px::is_pattern_of(default_edge().teeth.bits, 36, 4, 32),
        default_border().color.a == 255,
        default_border().color.r == default_border().color.g == default_border().color.b == 30,
        crate::px::is_pattern_of(default_border().width.bits, 12, 2, 8),
        default_border().shadow_radius.bits == 0,
        default_border().shadow_offset.x.bits == 0 && default_border().shadow_offset.y.bits == 0,
        default_border().matte_width.bits == 0,
        default_border().matte_color.a == 255,
        default_border().matte_color.r > default_border().matte_color.g
            > default_border().matte_color.b >= 230,
        default_border().shadow_color == (Rgba { r: 0, g: 0, b: 0, a: 128 }),
{
}

/// Every field of a banner has a label of its own, which begins as its name
/// does.
pub proof fn law_field_labels(a: FieldKind, b: FieldKind)
    ensures
        a.text() == b.text() ==> a == b,
        a.text()[0] == (match a {
            FieldKind::Timestamp => 'T',
            FieldKind::WindowTitle => 'W',
            FieldKind::ProcessName => 'P',
            FieldKind::OsVersion => 'O',
            FieldKind::MonitorInfo => 'M',
        }),
{
    reveal_strlit("Timestamp");
    reveal_strlit("Window title");
    reveal_strlit("Process name");
    reveal_strlit("OS version");
    reveal_strlit("Monitor info");
    assert(a.text()[0] != b.text()[0] || a == b);
}

/// A new border's matte is a light cream.
pub proof fn law_new_matte()
    ensures
        65536 * default_border().matte_color.r + 256 * default_border().matte_color.g
            + default_border().matte_color.b == 0xf5_f0e6,
{
}

} // verus!
