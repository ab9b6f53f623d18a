//! What the canvas of the classic editor paints for each annotation, and which
//! marks a selection has.
use vstd::prelude::*;
use crate::editor::document::{
    copy_fields, AnnotationNode, CaptureInfoPosition, CaptureInfoStyle, CursorView, FieldKind,
    NodeView, SerializedCursor, ShapeKind, StampSource, StampView,
};
use crate::editor::session::same_fields;
use crate::editor::rasterize::darken;
use crate::editor::tools::selection::{rect_handles, Handle};
use crate::image::RgbaImage;
use crate::px::{Bounds, Point, Px, Rgba, BITS_1_5};
use crate::text::{decimal_chars, from_chars, push_text, to_chars};

verus! {

// ---------------------------------------------------------------------------
// Annotations
// ---------------------------------------------------------------------------

/// The width of an outline.
#[derive(Debug, Clone, Copy, PartialEq, Eq, Structural)]
pub enum LineWidth {
    /// In picture pixels: it follows the scale of the canvas, but is at least one
    /// pixel of the screen.
    Scaled(Px),
    /// In pixels of the screen.
    Fixed(Px),
}

/// Where a text stands.
#[derive(Debug, Clone, Copy, PartialEq, Eq, Structural)]
pub enum TextPlace {
    /// The top left corner of the text is here.
    TopLeft(Point),
    /// Inside a balloon, a little away from its top left corner.
    Inset(Bounds),
    /// Centred on a circle of this radius.
    OnCircle(Point, Px),
    /// Centred in a box.
    InBox(Bounds),
    /// In a corner of the canvas.
    Corner(CaptureInfoPosition),
}

/// One thing that is painted.
#[derive(Debug)]
#[allow(inconsistent_fields)]
pub enum Mark {
    /// A straight arrow with a filled head.
    Arrow { start: Point, end: Point, color: Rgba, thickness: Px },
    /// A text, in this size in picture pixels; where it stands in a box or a corner,
    /// its size follows from that.
    Text { place: TextPlace, text: String, color: Rgba, size: Px },
    /// A box with a filling or without, with round corners or not.
    Box { rect: Bounds, fill: Option<Rgba>, stroke: Rgba, width: LineWidth, round: bool },
    /// The tail of a balloon, filled and outlined.
    Tail { rect: Bounds, tip: Point, fill: Rgba, stroke: Rgba, width: LineWidth },
    /// An ellipse with a filling or without.
    Ellipse { rect: Bounds, fill: Option<Rgba>, stroke: Rgba, width: LineWidth },
    /// A filled circle with a rim.
    Disc { center: Point, radius: Px, fill: Rgba, rim: Rgba },
    /// A line between the centres of two boxes.
    Link { from: Bounds, to: Bounds, color: Rgba },
}

/// One thing that is painted, as plain values.
#[verifier::ext_equal]
#[allow(inconsistent_fields)]
pub enum MarkView {
    Arrow { start: Point, end: Point, color: Rgba, thickness: Px },
    Text { place: TextPlace, text: Seq<char>, color: Rgba, size: Px },
    Box { rect: Bounds, fill: Option<Rgba>, stroke: Rgba, width: LineWidth, round: bool },
    Tail { rect: Bounds, tip: Point, fill: Rgba, stroke: Rgba, width: LineWidth },
    Ellipse { rect: Bounds, fill: Option<Rgba>, stroke: Rgba, width: LineWidth },
    Disc { center: Point, radius: Px, fill: Rgba, rim: Rgba },
    Link { from: Bounds, to: Bounds, color: Rgba },
}

impl View for Mark {
    type V = MarkView;

    open spec fn view(&self) -> MarkView {
        match *self {
            Mark::Arrow { start, end, color, thickness } => MarkView::Arrow {
                start,
                end,
                color,
                thickness,
            },
            Mark::Text { place, text, color, size } => MarkView::Text {
                place,
                text: text@,
                color,
                size,
            },
            Mark::Box { rect, fill, stroke, width, round } => MarkView::Box {
                rect,
                fill,
                stroke,
                width,
                round,
            },
            Mark::Tail { rect, tip, fill, stroke, width } => MarkView::Tail {
                rect,
                tip,
                fill,
                stroke,
                width,
            },
            Mark::Ellipse { rect, fill, stroke, width } => MarkView::Ellipse {
                rect,
                fill,
                stroke,
                width,
            },
            Mark::Disc { center, radius, fill, rim } => MarkView::Disc {
                center,
                radius,
                fill,
                rim,
            },
            Mark::Link { from, to, color } => MarkView::Link { from, to, color },
        }
    }
}

/// The views of a list of marks.
pub open spec fn mark_views(v: Seq<Mark>) -> Seq<MarkView> {
    v.map_values(|m: Mark| m@)
}

/// The filling of a shape: none where its alpha is 0.
pub open spec fn visible(fill: Rgba) -> Option<Rgba> {
    if fill.a > 0 {
        Some(fill)
    } else {
        None
    }
}

/// The label on a stamp.
pub open spec fn stamp_label(s: StampView) -> Seq<char> {
    "\u{2605} "@ + match s {
        StampView::Builtin { name } => name,
        StampView::Inline { .. } => "inline"@,
    }
}

/// The sign in the corner where a banner will be.
pub open spec fn info_label(p: CaptureInfoPosition) -> Seq<char> {
    match p {
        CaptureInfoPosition::TopLeft => "INFO \u{25F0}"@,
        CaptureInfoPosition::TopRight => "INFO \u{25F1}"@,
        CaptureInfoPosition::BottomLeft => "INFO \u{25F2}"@,
        CaptureInfoPosition::BottomRight => "INFO \u{25F3}"@,
    }
}

/// What is painted for an annotation, in order.
pub open spec fn marks_of(n: NodeView) -> Seq<MarkView> {
    let thin = LineWidth::Fixed(Px { bits: BITS_1_5 });
    let any_size = Px { bits: 0 };
    match n {
        NodeView::Arrow { start, end, color, thickness, .. } => seq![
            MarkView::Arrow { start, end, color, thickness },
        ],
        NodeView::Text { rect, text, color, size_px, .. } => seq![
            MarkView::Text {
                place: TextPlace::TopLeft(Point { x: rect.min_x, y: rect.min_y }),
                text,
                color,
                size: size_px,
            },
        ],
        NodeView::Callout {
            rect,
            tail,
            text,
            fill,
            stroke,
            stroke_width,
            text_color,
            text_size,
            ..
        } => seq![
            MarkView::Box {
                rect,
                fill: Some(fill),
                stroke,
                width: LineWidth::Scaled(stroke_width),
                round: true,
            },
            MarkView::Tail {
                rect,
                tip: tail,
                fill,
                stroke,
                width: LineWidth::Scaled(stroke_width),
            },
            MarkView::Text {
                place: TextPlace::Inset(rect),
                text,
                color: text_color,
                size: text_size,
            },
        ],
        NodeView::Shape { shape, rect, stroke, stroke_width, fill, .. } => match shape {
            ShapeKind::Rect => seq![
                MarkView::Box {
                    rect,
                    fill: visible(fill),
                    stroke,
                    width: LineWidth::Scaled(stroke_width),
                    round: false,
                },
            ],
            ShapeKind::Ellipse => seq![
                MarkView::Ellipse {
                    rect,
                    fill: visible(fill),
                    stroke,
                    width: LineWidth::Scaled(stroke_width),
                },
            ],
        },
        NodeView::Step { center, radius, number, fill, text_color, .. } => seq![
            MarkView::Disc {
                center,
                radius,
                fill,
                rim: Rgba { r: fill.r / 2, g: fill.g / 2, b: fill.b / 2, a: fill.a },
            },
            MarkView::Text {
                place: TextPlace::OnCircle(center, radius),
                text: crate::text::decimal(number as nat),
                color: text_color,
                size: any_size,
            },
        ],
        NodeView::Stamp { source, rect, .. } => seq![
            MarkView::Box {
                rect,
                fill: None,
                stroke: Rgba { r: 255, g: 180, b: 40, a: 255 },
                width: thin,
                round: true,
            },
            MarkView::Text {
                place: TextPlace::InBox(rect),
                text: stamp_label(source),
                color: Rgba { r: 255, g: 200, b: 80, a: 255 },
                size: any_size,
            },
        ],
        NodeView::Blur { rect, .. } => seq![
            MarkView::Box {
                rect,
                fill: Some(Rgba { r: 120, g: 140, b: 200, a: 100 }),
                stroke: Rgba { r: 120, g: 140, b: 200, a: 255 },
                width: thin,
                round: false,
            },
            MarkView::Text {
                place: TextPlace::InBox(rect),
                text: "BLUR"@,
                color: Rgba { r: 255, g: 255, b: 255, a: 220 },
                size: any_size,
            },
        ],
        NodeView::CaptureInfo { position, .. } => seq![
            MarkView::Text {
                place: TextPlace::Corner(position),
                text: info_label(position),
                color: Rgba { r: 240, g: 240, b: 240, a: 255 },
                size: any_size,
            },
        ],
        NodeView::Magnify { source_rect, target_rect, border, border_width, circular, .. } => seq![
            MarkView::Box {
                rect: source_rect,
                fill: None,
                stroke: Rgba { r: 255, g: 220, b: 60, a: 255 },
                width: thin,
                round: false,
            },
            if circular {
                MarkView::Ellipse {
                    rect: target_rect,
                    fill: None,
                    stroke: border,
                    width: LineWidth::Scaled(border_width),
                }
            } else {
                MarkView::Box {
                    rect: target_rect,
                    fill: None,
                    stroke: border,
                    width: LineWidth::Scaled(border_width),
                    round: false,
                }
            },
            MarkView::Link {
                from: source_rect,
                to: target_rect,
                color: Rgba { r: 255, g: 220, b: 60, a: 180 },
            },
        ],
    }
}

fn visible_fill(fill: Rgba) -> (r: Option<Rgba>)
    ensures
        r == visible(fill),
{
    if fill.a > 0 {
        Some(fill)
    } else {
        None
    }
}

fn label_of_stamp(s: &StampSource) -> (r: String)
    ensures
        r@ == stamp_label(s@),
{
    let mut out = to_chars("\u{2605} ");
    match s {
        StampSource::Builtin { name } => {
            push_text(&mut out, name.as_str());
        },
        StampSource::Inline { .. } => {
            push_text(&mut out, "inline");
        },
    }
    from_chars(out.as_slice())
}

fn label_of_info(p: CaptureInfoPosition) -> (r: &'static str)
    ensures
        r@ == info_label(p),
{
    match p {
        CaptureInfoPosition::TopLeft => "INFO \u{25F0}",
        CaptureInfoPosition::TopRight => "INFO \u{25F1}",
        CaptureInfoPosition::BottomLeft => "INFO \u{25F2}",
        CaptureInfoPosition::BottomRight => "INFO \u{25F3}",
    }
}

/// What is painted for an annotation.
pub fn draw_node_preview(node: &AnnotationNode) -> (r: Vec<Mark>)
    ensures
        mark_views(r@) == marks_of(node@),
{
    let thin = LineWidth::Fixed(Px { bits: BITS_1_5 });
    let any_size = Px { bits: 0 };
    let mut out: Vec<Mark> = Vec::new();
    match node {
        AnnotationNode::Arrow { start, end, color, thickness, .. } => {
            out.push(
                Mark::Arrow { start: *start, end: *end, color: *color, thickness: *thickness },
            );
        },
        AnnotationNode::Text { rect, text, color, size_px, .. } => {
            out.push(
                Mark::Text {
                    place: TextPlace::TopLeft(Point { x: rect.min_x, y: rect.min_y }),
                    text: text.clone(),
                    color: *color,
                    size: *size_px,
                },
            );
        },
        AnnotationNode::Callout {
            rect,
            tail,
            text,
            fill,
            stroke,
            stroke_width,
            text_color,
            text_size,
            ..
        } => {
            out.push(
                Mark::Box {
                    rect: *rect,
                    fill: Some(*fill),
                    stroke: *stroke,
                    width: LineWidth::Scaled(*stroke_width),
                    round: true,
                },
            );
            out.push(
                Mark::Tail {
                    rect: *rect,
                    tip: *tail,
                    fill: *fill,
                    stroke: *stroke,
                    width: LineWidth::Scaled(*stroke_width),
                },
            );
            out.push(
                Mark::Text {
                    place: TextPlace::Inset(*rect),
                    text: text.clone(),
                    color: *text_color,
                    size: *text_size,
                },
            );
        },
        AnnotationNode::Shape { shape, rect, stroke, stroke_width, fill, .. } => {
            match shape {
                ShapeKind::Rect => {
                    out.push(
                        Mark::Box {
                            rect: *rect,
                            fill: visible_fill(*fill),
                            stroke: *stroke,
                            width: LineWidth::Scaled(*stroke_width),
                            round: false,
                        },
                    );
                },
                ShapeKind::Ellipse => {
                    out.push(
                        Mark::Ellipse {
                            rect: *rect,
                            fill: visible_fill(*fill),
                            stroke: *stroke,
                            width: LineWidth::Scaled(*stroke_width),
                        },
                    );
                },
            }
        },
        AnnotationNode::Step { center, radius, number, fill, text_color, .. } => {
            out.push(
                Mark::Disc { center: *center, radius: *radius, fill: *fill, rim: darken(*fill) },
            );
            let digits = decimal_chars(*number as u64);
            out.push(
                Mark::Text {
                    place: TextPlace::OnCircle(*center, *radius),
                    text: from_chars(digits.as_slice()),
                    color: *text_color,
                    size: any_size,
                },
            );
        },
        AnnotationNode::Stamp { source, rect, .. } => {
            out.push(
                Mark::Box {
                    rect: *rect,
                    fill: None,
                    stroke: Rgba { r: 255, g: 180, b: 40, a: 255 },
                    width: thin,
                    round: true,
                },
            );
            out.push(
                Mark::Text {
                    place: TextPlace::InBox(*rect),
                    text: label_of_stamp(source),
                    color: Rgba { r: 255, g: 200, b: 80, a: 255 },
                    size: any_size,
                },
            );
        },
        AnnotationNode::Blur { rect, .. } => {
            out.push(
                Mark::Box {
                    rect: *rect,
                    fill: Some(Rgba { r: 120, g: 140, b: 200, a: 100 }),
                    stroke: Rgba { r: 120, g: 140, b: 200, a: 255 },
                    width: thin,
                    round: false,
                },
            );
            out.push(
                Mark::Text {
                    place: TextPlace::InBox(*rect),
                    text: "BLUR".to_owned(),
                    color: Rgba { r: 255, g: 255, b: 255, a: 220 },
                    size: any_size,
                },
            );
        },
        AnnotationNode::CaptureInfo { position, .. } => {
            out.push(
                Mark::Text {
                    place: TextPlace::Corner(*position),
                    text: label_of_info(*position).to_owned(),
                    color: Rgba { r: 240, g: 240, b: 240, a: 255 },
                    size: any_size,
                },
            );
        },
        AnnotationNode::Magnify { source_rect, target_rect, border, border_width, circular, .. } => {
            out.push(
                Mark::Box {
                    rect: *source_rect,
                    fill: None,
                    stroke: Rgba { r: 255, g: 220, b: 60, a: 255 },
                    width: thin,
                    round: false,
                },
            );
            if *circular {
                out.push(
                    Mark::Ellipse {
                        rect: *target_rect,
                        fill: None,
                        stroke: *border,
                        width: LineWidth::Scaled(*border_width),
                    },
                );
            } else {
                out.push(
                    Mark::Box {
                        rect: *target_rect,
                        fill: None,
                        stroke: *border,
                        width: LineWidth::Scaled(*border_width),
                        round: false,
                    },
                );
            }
            out.push(
                Mark::Link {
                    from: *source_rect,
                    to: *target_rect,
                    color: Rgba { r: 255, g: 220, b: 60, a: 180 },
                },
            );
        },
    }
    assert(mark_views(out@) =~= marks_of(node@));
    out
}

// ---------------------------------------------------------------------------
// The selection
// ---------------------------------------------------------------------------

/// A mark of the selection.
#[derive(Debug, Clone, Copy, PartialEq, Eq, Structural)]
pub enum SelectionMark {
    /// The outline round the box.
    Outline(Bounds),
    /// A round handle.
    Dot(Point),
    /// The tip of a balloon's tail.
    TailDot(Point),
    /// The region that a loupe shows.
    SourceBox(Bounds),
}

/// The marks that only some annotations have: the tail of a balloon, the source of
/// a loupe, the ends of an arrow.
pub open spec fn extra_marks(n: Option<NodeView>) -> Seq<SelectionMark> {
    match n {
        Some(NodeView::Callout { tail, .. }) => seq![SelectionMark::TailDot(tail)],
        Some(NodeView::Magnify { source_rect, .. }) => seq![SelectionMark::SourceBox(source_rect)],
        Some(NodeView::Arrow { start, end, .. }) => seq![
            SelectionMark::Dot(start),
            SelectionMark::Dot(end),
        ],
        _ => Seq::empty(),
    }
}

/// The marks of a selected box: its outline, its eight handles, and what else the
/// annotation has.
pub open spec fn selection_marks(bbox: Bounds, mid: Point, n: Option<NodeView>) -> Seq<
    SelectionMark,
> {
    seq![SelectionMark::Outline(bbox)] + crate::editor::tools::selection::handle_points(
        bbox,
        mid,
    ).map_values(|h: (Handle, Point)| SelectionMark::Dot(h.1)) + extra_marks(n)
}

/// The marks of what is selected: the box, its centre, and the annotation if it is
/// one.
pub fn draw_selection_handles(bbox: Bounds, mid: Point, node: Option<&AnnotationNode>) -> (r: Vec<
    SelectionMark,
>)
    ensures
        r@ == selection_marks(
            bbox,
            mid,
            match node {
                Some(n) => Some(n@),
                None => None,
            },
        ),
{
    let ghost view = match node {
        Some(n) => Some(n@),
        None => None,
    };
    let mut out: Vec<SelectionMark> = Vec::new();
    out.push(SelectionMark::Outline(bbox));
    let handles = rect_handles(bbox, mid);
    let ghost dots = handles@.map_values(|h: (Handle, Point)| SelectionMark::Dot(h.1));
    let mut i: usize = 0;
    while i < handles.len()
        invariant
            i <= handles@.len(),
            dots == handles@.map_values(|h: (Handle, Point)| SelectionMark::Dot(h.1)),
            out@ == seq![SelectionMark::Outline(bbox)] + dots.take(i as int),
        decreases handles@.len() - i,
    {
        out.push(SelectionMark::Dot(handles[i].1));
        assert(dots.take(i + 1) =~= dots.take(i as int).push(dots[i as int]));
        assert(out@ =~= seq![SelectionMark::Outline(bbox)] + dots.take(i + 1));
        i += 1;
    }
    assert(dots.take(i as int) =~= dots);
    match node {
        Some(AnnotationNode::Callout { tail, .. }) => {
            out.push(SelectionMark::TailDot(*tail));
        },
        Some(AnnotationNode::Magnify { source_rect, .. }) => {
            out.push(SelectionMark::SourceBox(*source_rect));
        },
        Some(AnnotationNode::Arrow { start, end, .. }) => {
            out.push(SelectionMark::Dot(*start));
            out.push(SelectionMark::Dot(*end));
        },
        _ => {},
    }
    assert(out@ =~= selection_marks(bbox, mid, view));
    out
}

// ---------------------------------------------------------------------------
// The banner
// ---------------------------------------------------------------------------

/// Whether a pixel can be seen.
pub open spec fn seen(img: &RgbaImage, x: int, y: int) -> bool {
    img.inside(x, y) && img.at(x, y).a > 0
}

/// `w` and `h` are the least width and height that hold all pixels that can be
/// seen.
pub open spec fn is_extent(img: &RgbaImage, w: u32, h: u32) -> bool {
    &&& forall|x: int, y: int| #[trigger] seen(img, x, y) ==> x < w && y < h
    &&& exists|x: int, y: int| #[trigger] seen(img, x, y) && x == w - 1
    &&& exists|x: int, y: int| #[trigger] seen(img, x, y) && y == h - 1
}

/// The part of a picture, from its top left corner, that holds all pixels that can
/// be seen; none if there are none.
pub fn banner_extent(img: &RgbaImage) -> (r: Option<(u32, u32)>)
    requires
        img.wf(),
    ensures
        match r {
            Some((w, h)) => is_extent(img, w, h) && 0 < w <= img.width && 0 < h <= img.height,
            None => forall|x: int, y: int| !#[trigger] seen(img, x, y),
        },
{
    let mut w: u32 = 0;
    let mut h: u32 = 0;
    let mut y: u32 = 0;
    while y < img.height
        invariant
            img.wf(),
            y <= img.height,
            w <= img.width,
            h <= y,
            w == 0 <==> h == 0,
            forall|i: int, j: int| #[trigger] seen(img, i, j) && j < y ==> i < w && j < h,
            w > 0 ==> exists|i: int, j: int| #[trigger] seen(img, i, j) && i == w - 1,
            h > 0 ==> exists|i: int, j: int| #[trigger] seen(img, i, j) && j == h - 1,
        decreases img.height - y,
    {
        let mut x: u32 = 0;
        while x < img.width
            invariant
                img.wf(),
                y < img.height,
                x <= img.width,
                w <= img.width,
                h <= y + 1,
                w == 0 <==> h == 0,
                forall|i: int, j: int|
                    #[trigger] seen(img, i, j) && (j < y || (j == y && i < x)) ==> i < w && j < h,
                w > 0 ==> exists|i: int, j: int| #[trigger] seen(img, i, j) && i == w - 1,
                h > 0 ==> exists|i: int, j: int| #[trigger] seen(img, i, j) && j == h - 1,
            decreases img.width - x,
        {
            if img.get_pixel(x, y).a > 0 {
                assert(seen(img, x as int, y as int));
                if x + 1 > w {
                    w = x + 1;
                }
                if y + 1 > h {
                    h = y + 1;
                }
            }
            x += 1;
        }
        y += 1;
    }
    if w == 0 {
        None
    } else {
        Some((w, h))
    }
}

/// The baked banner without the empty space right of it and below it.
pub fn crop_banner(img: &RgbaImage) -> (r: Option<RgbaImage>)
    requires
        img.wf(),
    ensures
        match r {
            Some(b) => {
                &&& b.wf()
                &&& is_extent(img, b.width, b.height)
                &&& forall|x: int, y: int| b.inside(x, y) ==> #[trigger] b.at(x, y) == img.at(x, y)
            },
            None => forall|x: int, y: int| !#[trigger] seen(img, x, y),
        },
{
    match banner_extent(img) {
        Some((w, h)) => {
            assert(img.raw.len() <= usize::MAX);
            assert(w * h <= img.width * img.height) by (nonlinear_arith)
                requires
                    w <= img.width,
                    h <= img.height,
            ;
            Some(crate::editor::rasterize::crop(img, 0, 0, w, h))
        },
        None => None,
    }
}

// ---------------------------------------------------------------------------
// Kept pictures
// ---------------------------------------------------------------------------

/// What a baked banner depends on, besides the document: while it stays the same the
/// baked picture is used again.
#[derive(Debug)]
pub struct CaptureInfoKey {
    pub fields: Vec<FieldKind>,
    pub position: CaptureInfoPosition,
    pub style: CaptureInfoStyle,
}

impl CaptureInfoKey {
    /// The key of a banner.
    pub fn new(
        fields: &Vec<FieldKind>,
        position: CaptureInfoPosition,
        style: CaptureInfoStyle,
    ) -> (r: CaptureInfoKey)
        ensures
            r.fields@ == fields@,
            r.position == position,
            r.style == style,
    {
        CaptureInfoKey { fields: copy_fields(fields), position, style }
    }

    /// Whether two keys are equal. Sizes are compared by their bits.
    pub fn same(&self, other: &CaptureInfoKey) -> (r: bool)
        ensures
            r == (self.fields@ == other.fields@ && self.position == other.position && self.style
                == other.style),
    {
        self.position == other.position && self.style == other.style && same_fields(
            &self.fields,
            &other.fields,
        )
    }
}

/// What the picture of a cursor depends on.
pub open spec fn cursor_key_of(c: CursorView) -> (nat, u32, u32) {
    (c.png.len(), c.width, c.height)
}

/// Whether the picture of a cursor has to be made anew: it has not been made yet, or
/// for another cursor.
pub fn cursor_changed(kept: Option<(usize, u32, u32)>, c: &SerializedCursor) -> (r: bool)
    ensures
        r == match kept {
            Some(k) => (k.0 as nat, k.1, k.2) != cursor_key_of(c@),
            None => true,
        },
{
    match kept {
        Some(k) => !(k.0 == c.png.len() && k.1 == c.width && k.2 == c.height),
        None => true,
    }
}

/// A fill that cannot be seen is none.
pub proof fn law_fills_that_are_seen(fill: Rgba)
    ensures
        visible(fill) is None <==> fill.a == 0,
        visible(fill) matches Some(c) ==> c == fill,
{
}

/// Each corner has a label of its own, with the picture of a square whose part
/// lies in that corner; the four pictures follow one another.
pub proof fn law_corners_have_pictures(p: CaptureInfoPosition, q: CaptureInfoPosition)
    ensures
        info_label(p).len() == 6,
        info_label(p).last() as int == 0x25f0 + (match p {
            CaptureInfoPosition::TopLeft => 0int,
            CaptureInfoPosition::TopRight => 1,
            CaptureInfoPosition::BottomLeft => 2,
            CaptureInfoPosition::BottomRight => 3,
        }),
        info_label(p).drop_last() == info_label(q).drop_last(),
{
    reveal_strlit("INFO \u{25F0}");
    reveal_strlit("INFO \u{25F1}");
    reveal_strlit("INFO \u{25F2}");
    reveal_strlit("INFO \u{25F3}");
    assert(info_label(p).drop_last() =~= info_label(q).drop_last());
}

/// The preview of an annotation shows it where it is, in its own colours and
/// widths: an arrow from start to end, a shape in its box, a marker's number on
/// its disc, a loupe's region joined to its target.
pub proof fn law_preview_shows_the_annotation(n: NodeView)
    ensures
        n matches NodeView::Arrow { start: a, end: b, color: c, thickness: t, .. } ==> marks_of(
            n,
        ).len() == 1 && (marks_of(n)[0] matches MarkView::Arrow { start, end, color, thickness }
            && start == a && end == b && color == c && thickness == t),
        n matches NodeView::Text { rect, text: t, color: c, size_px, .. } ==> marks_of(n).len() == 1
            && (marks_of(n)[0] matches MarkView::Text { place, text, color, size } && text == t
            && color == c && size == size_px && place == TextPlace::TopLeft(
            Point { x: rect.min_x, y: rect.min_y },
        )),
        n matches NodeView::Callout { rect: b, tail, text: t, fill: f, stroke: s, stroke_width, text_color, text_size, .. }
            ==> marks_of(n).len() == 3 && (marks_of(n)[0] matches MarkView::Box {
            rect,
            fill,
            stroke,
            width,
            round,
        } && rect == b && fill == Some(f) && stroke == s && width == LineWidth::Scaled(stroke_width)
            && round) && (marks_of(n)[1] matches MarkView::Tail { rect, tip, fill, stroke, width }
            && rect == b && tip == tail && fill == f && stroke == s && width == LineWidth::Scaled(
            stroke_width,
        )) && (marks_of(n)[2] matches MarkView::Text { place, text, color, size } && text == t
            && color == text_color && size == text_size && place == TextPlace::Inset(b)),
        n matches NodeView::Shape { shape, rect: b, stroke: s, stroke_width, fill: f, .. }
            ==> marks_of(n).len() == 1 && (shape is Rect <==> marks_of(n)[0] is Box) && (
        shape is Ellipse <==> marks_of(n)[0] is Ellipse),
        n matches NodeView::Shape { shape: _, rect: b, stroke: s, stroke_width, fill: f, .. } ==> (
        marks_of(n)[0] matches MarkView::Box { rect, fill, stroke, width, round } ==> rect == b
            && stroke == s && width == LineWidth::Scaled(stroke_width) && !round && (fill is Some
            <==> f.a > 0) && (fill is Some ==> fill == Some(f))),
        n matches NodeView::Shape { shape: _, rect: b, stroke: s, stroke_width, fill: f, .. } ==> (
        marks_of(n)[0] matches MarkView::Ellipse { rect, fill, stroke, width } ==> rect == b
            && stroke == s && width == LineWidth::Scaled(stroke_width) && (fill is Some <==> f.a
            > 0) && (fill is Some ==> fill == Some(f))),
        n matches NodeView::Step { center: c, radius: r, number, fill: f, text_color, .. }
            ==> marks_of(n).len() == 2 && (marks_of(n)[0] matches MarkView::Disc {
            center,
            radius,
            fill,
            rim,
        } && center == c && radius == r && fill == f && rim.a == f.a && 2 * rim.r <= f.r <= 2
            * rim.r + 1 && 2 * rim.g <= f.g <= 2 * rim.g + 1 && 2 * rim.b <= f.b <= 2 * rim.b + 1)
            && (marks_of(n)[1] matches MarkView::Text { place, text, color, .. } && text
            == crate::text::decimal(number as nat) && color == text_color && place
            == TextPlace::OnCircle(c, r)),
        n matches NodeView::Magnify { source_rect, target_rect, border, border_width, circular, .. }
            ==> marks_of(n).len() == 3 && (marks_of(n)[0] matches MarkView::Box { rect, fill, .. }
            && rect == source_rect && fill is None) && (circular <==> marks_of(n)[1] is Ellipse)
            && (marks_of(n)[2] matches MarkView::Link { from, to, .. } && from == source_rect && to
            == target_rect) && (marks_of(n)[1] matches MarkView::Ellipse { rect, stroke, width, .. }
            ==> rect == target_rect && stroke == border && width == LineWidth::Scaled(border_width))
            && (marks_of(n)[1] matches MarkView::Box { rect, stroke, width, .. } ==> rect
            == target_rect && stroke == border && width == LineWidth::Scaled(border_width)) && (
        !circular ==> marks_of(n)[1] is Box),
{
}

/// The preview of a stamp, a blur and a banner: a box with its name in it, or
/// the name in its corner.
pub proof fn law_preview_names_the_others(n: NodeView)
    ensures
        n matches NodeView::Stamp { source, rect: b, .. } ==> marks_of(n).len() == 2 && (marks_of(
            n,
        )[0] matches MarkView::Box { rect, fill, .. } && rect == b && fill is None) && (marks_of(
            n,
        )[1] matches MarkView::Text { place, text, .. } && place == TextPlace::InBox(b) && text
            == stamp_label(source)),
        n matches NodeView::Blur { rect: b, .. } ==> marks_of(n).len() == 2 && (marks_of(
            n,
        )[0] matches MarkView::Box { rect, fill, stroke, .. } && rect == b && fill is Some
            && fill->Some_0.a < 255 && stroke.a == 255) && (marks_of(
            n,
        )[1] matches MarkView::Text { place, text, .. } && place == TextPlace::InBox(b)
            && text.len() == 4),
        n matches NodeView::CaptureInfo { position, .. } ==> marks_of(n).len() == 1 && (marks_of(
            n,
        )[0] matches MarkView::Text { place, text, .. } && place == TextPlace::Corner(position)
            && text == info_label(position)),
        n matches NodeView::Stamp { source: StampView::Builtin { name }, .. } ==> stamp_label(
            n->Stamp_source,
        ).skip(2) == name,
{
    reveal_strlit("BLUR");
    reveal_strlit("\u{2605} ");
    if n is Stamp && n->Stamp_source is Builtin {
        let name = n->Stamp_source->Builtin_name;
        assert(stamp_label(n->Stamp_source).skip(2) =~= name);
    }
}

/// A selection shows its outline, then eight dots, at the corners and in the
/// middles of the sides, then what else can be dragged: a balloon's tail, a
/// loupe's region, an arrow's ends.
pub proof fn law_selection_marks(bbox: Bounds, mid: Point, n: Option<NodeView>, k: int)
    requires
        0 <= k < 8,
    ensures
        ({
            let m = selection_marks(bbox, mid, n);
            let kind = n->Some_0;
            &&& m[0] == SelectionMark::Outline(bbox)
            &&& m[k + 1] == SelectionMark::Dot(
                crate::editor::tools::selection::handle_points(bbox, mid)[k].1,
            )
            &&& n is None ==> m.len() == 9
            &&& n is Some && kind is Callout ==> m.len() == 10 && m[9] == SelectionMark::TailDot(
                kind->Callout_tail,
            )
            &&& n is Some && kind is Magnify ==> m.len() == 10 && m[9] == SelectionMark::SourceBox(
                kind->Magnify_source_rect,
            )
            &&& n is Some && kind is Arrow ==> m.len() == 11 && m[9] == SelectionMark::Dot(
                kind->Arrow_start,
            ) && m[10] == SelectionMark::Dot(kind->Arrow_end)
            &&& n is Some && !(kind is Callout) && !(kind is Magnify) && !(kind is Arrow) ==> m.len()
                == 9
        }),
{
    let h = crate::editor::tools::selection::handle_points(bbox, mid);
    assert(h.len() == 8);
    let dots = h.map_values(|h: (Handle, Point)| SelectionMark::Dot(h.1));
    assert(dots[k] == SelectionMark::Dot(h[k].1));
}

/// The extent of a banner holds every pixel that can be seen at all, and its
/// last column and its last row each hold one.
pub proof fn law_extent_holds_what_is_seen(img: &RgbaImage, w: u32, h: u32, x: int, y: int)
    requires
        is_extent(img, w, h),
        img.inside(x, y),
    ensures
        x >= w || y >= h ==> img.at(x, y).a == 0,
        exists|j: int| 0 <= j < img.height && (#[trigger] img.at(w - 1, j)).a != 0,
        exists|i: int| 0 <= i < img.width && (#[trigger] img.at(i, h - 1)).a != 0,
        1 <= w <= img.width && 1 <= h <= img.height,
{
    if x >= w || y >= h {
        assert(!seen(img, x, y));
    }
    let (a, b) = choose|x: int, y: int| #[trigger] seen(img, x, y) && x == w - 1;
    assert(img.at(w - 1, b).a != 0);
    let (c, d) = choose|x: int, y: int| #[trigger] seen(img, x, y) && y == h - 1;
    assert(img.at(c, h - 1).a != 0);
}

} // verus!
