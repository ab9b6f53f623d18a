//! Selection and transform rules shared by the tools: which box an annotation
//! has, what its handles move, and what a click hits.
use vstd::prelude::*;
use crate::editor::document::{AnnotationNode, NodeId, NodeView, SerializedCursor};
use crate::px::{Bounds, Point, Px, BITS_2};

verus! {

/// What is selected in the editor.
#[derive(Debug, Clone, Copy, PartialEq, Eq, Structural)]
pub enum SelectionTarget {
    Annotation(NodeId),
    Cursor,
}

/// A place on a selected annotation that can be dragged.
#[derive(Debug, Clone, Copy, PartialEq, Eq, Structural)]
pub enum Handle {
    /// The whole box.
    Body,
    N,
    S,
    E,
    W,
    NE,
    NW,
    SE,
    SW,
    /// The tip of a balloon's tail.
    CalloutTail,
    /// The region that a loupe shows.
    MagnifySource,
    ArrowStart,
    ArrowEnd,
    /// The middle of an arrow: dragging it bends the arrow.
    ArrowMid,
}

impl Handle {
    pub open spec fn moves_left(self) -> bool {
        self == Handle::Body || self == Handle::W || self == Handle::NW || self == Handle::SW
    }

    pub open spec fn moves_right(self) -> bool {
        self == Handle::Body || self == Handle::E || self == Handle::NE || self == Handle::SE
    }

    pub open spec fn moves_top(self) -> bool {
        self == Handle::Body || self == Handle::N || self == Handle::NE || self == Handle::NW
    }

    pub open spec fn moves_bottom(self) -> bool {
        self == Handle::Body || self == Handle::S || self == Handle::SE || self == Handle::SW
    }
}

/// A box after a handle was dragged, out of the box before and the box with all
/// its edges moved along.
pub open spec fn dragged(bbox: Bounds, moved: Bounds, handle: Handle) -> Bounds {
    Bounds {
        min_x: if handle.moves_left() {
            moved.min_x
        } else {
            bbox.min_x
        },
        min_y: if handle.moves_top() {
            moved.min_y
        } else {
            bbox.min_y
        },
        max_x: if handle.moves_right() {
            moved.max_x
        } else {
            bbox.max_x
        },
        max_y: if handle.moves_bottom() {
            moved.max_y
        } else {
            bbox.max_y
        },
    }
}

/// Drags a handle: the body moves both corners, N, S, E and W move one edge, the
/// corners two. `moved` is the box with all its edges moved along.
pub fn drag_rect(bbox: Bounds, moved: Bounds, handle: Handle) -> (r: Bounds)
    ensures
        r == dragged(bbox, moved, handle),
{
    match handle {
        Handle::Body => moved,
        Handle::N => Bounds { min_y: moved.min_y, ..bbox },
        Handle::S => Bounds { max_y: moved.max_y, ..bbox },
        Handle::E => Bounds { max_x: moved.max_x, ..bbox },
        Handle::W => Bounds { min_x: moved.min_x, ..bbox },
        Handle::NE => Bounds { max_x: moved.max_x, min_y: moved.min_y, ..bbox },
        Handle::NW => Bounds { min_x: moved.min_x, min_y: moved.min_y, ..bbox },
        Handle::SE => Bounds { max_x: moved.max_x, max_y: moved.max_y, ..bbox },
        Handle::SW => Bounds { min_x: moved.min_x, max_y: moved.max_y, ..bbox },
        _ => bbox,
    }
}

/// A corner leaves the opposite corner where it is, and no handle but the body
/// moves two opposite edges.
pub proof fn law_opposite_edge_stays(bbox: Bounds, moved: Bounds, handle: Handle)
    requires
        handle != Handle::Body,
    ensures
        dragged(bbox, moved, handle).min_x == bbox.min_x || dragged(bbox, moved, handle).max_x
            == bbox.max_x,
        dragged(bbox, moved, handle).min_y == bbox.min_y || dragged(bbox, moved, handle).max_y
            == bbox.max_y,
{
}

/// The box of an annotation. That of a step marker is `circle`; a banner has
/// none, because its size depends on its text.
pub open spec fn box_of(node: NodeView, circle: Bounds) -> Option<Bounds> {
    match node {
        NodeView::Arrow { start, end, control, .. } => {
            let b = Bounds::spanned(start, end);
            match control {
                Some(c) => Some(
                    Bounds {
                        min_x: b.min_x.smaller(c.x),
                        min_y: b.min_y.smaller(c.y),
                        max_x: b.max_x.larger(c.x),
                        max_y: b.max_y.larger(c.y),
                    },
                ),
                None => Some(b),
            }
        },
        NodeView::Text { rect, .. } => Some(rect),
        NodeView::Callout { rect, .. } => Some(rect),
        NodeView::Shape { rect, .. } => Some(rect),
        NodeView::Step { .. } => Some(circle),
        NodeView::Stamp { rect, .. } => Some(rect),
        NodeView::Magnify { target_rect, .. } => Some(target_rect),
        NodeView::Blur { rect, .. } => Some(rect),
        NodeView::CaptureInfo { .. } => None,
    }
}

/// The box of an annotation; `circle` is the box round a step marker's circle.
pub fn bounds_of_node(node: &AnnotationNode, circle: Bounds) -> (r: Option<Bounds>)
    ensures
        r == box_of(node@, circle),
{
    match node {
        AnnotationNode::Arrow { start, end, control, .. } => {
            let b = Bounds::between(*start, *end);
            match control {
                Some(c) => Some(
                    Bounds {
                        min_x: b.min_x.min(c.x),
                        min_y: b.min_y.min(c.y),
                        max_x: b.max_x.max(c.x),
                        max_y: b.max_y.max(c.y),
                    },
                ),
                None => Some(b),
            }
        },
        AnnotationNode::Text { rect, .. } => Some(*rect),
        AnnotationNode::Callout { rect, .. } => Some(*rect),
        AnnotationNode::Shape { rect, .. } => Some(*rect),
        AnnotationNode::Step { .. } => Some(circle),
        AnnotationNode::Stamp { rect, .. } => Some(*rect),
        AnnotationNode::Magnify { target_rect, .. } => Some(*target_rect),
        AnnotationNode::Blur { rect, .. } => Some(*rect),
        AnnotationNode::CaptureInfo { .. } => None,
    }
}

/// The box of an arrow holds its ends and its control point.
pub proof fn law_arrow_box_holds_its_points(
    start: Point,
    end: Point,
    control: Point,
    node: NodeView,
    circle: Bounds,
)
    requires
        !start.x.is_nan() && !start.y.is_nan(),
        !end.x.is_nan() && !end.y.is_nan(),
        !control.x.is_nan() && !control.y.is_nan(),
        node matches NodeView::Arrow { start: s, end: e, control: c, .. } && s == start && e == end
            && c == Some(control),
    ensures
        ({
            let b = box_of(node, circle)->Some_0;
            b.holds(start) && b.holds(end) && b.holds(control)
        }),
{
}

/// Where the cursor layer lies: left, top, right and bottom.
pub fn bounds_of_cursor(c: &SerializedCursor) -> (r: (i32, i32, i32, i32))
    requires
        c.x + c.width <= i32::MAX,
        c.y + c.height <= i32::MAX,
        c.width <= i32::MAX,
        c.height <= i32::MAX,
    ensures
        r == (c.x, c.y, (c.x + c.width) as i32, (c.y + c.height) as i32),
{
    (c.x, c.y, c.x + c.width as i32, c.y + c.height as i32)
}

/// Where the handles of a box lie; `mid` is its centre.
pub open spec fn handle_points(bbox: Bounds, mid: Point) -> Seq<(Handle, Point)> {
    seq![
        (Handle::NW, Point { x: bbox.min_x, y: bbox.min_y }),
        (Handle::N, Point { x: mid.x, y: bbox.min_y }),
        (Handle::NE, Point { x: bbox.max_x, y: bbox.min_y }),
        (Handle::W, Point { x: bbox.min_x, y: mid.y }),
        (Handle::E, Point { x: bbox.max_x, y: mid.y }),
        (Handle::SW, Point { x: bbox.min_x, y: bbox.max_y }),
        (Handle::S, Point { x: mid.x, y: bbox.max_y }),
        (Handle::SE, Point { x: bbox.max_x, y: bbox.max_y }),
    ]
}

/// The eight handles of a box whose centre is `mid`.
pub fn rect_handles(bbox: Bounds, mid: Point) -> (r: Vec<(Handle, Point)>)
    ensures
        r@ == handle_points(bbox, mid),
{
    let mut out: Vec<(Handle, Point)> = Vec::new();
    out.push((Handle::NW, Point { x: bbox.min_x, y: bbox.min_y }));
    out.push((Handle::N, Point { x: mid.x, y: bbox.min_y }));
    out.push((Handle::NE, Point { x: bbox.max_x, y: bbox.min_y }));
    out.push((Handle::W, Point { x: bbox.min_x, y: mid.y }));
    out.push((Handle::E, Point { x: bbox.max_x, y: mid.y }));
    out.push((Handle::SW, Point { x: bbox.min_x, y: bbox.max_y }));
    out.push((Handle::S, Point { x: mid.x, y: bbox.max_y }));
    out.push((Handle::SE, Point { x: bbox.max_x, y: bbox.max_y }));
    assert(out@ =~= handle_points(bbox, mid));
    out
}

/// Whether a point lies in a box; the corners need not be in order.
pub fn hit_bbox(p: Point, bbox: Bounds) -> (r: bool)
    ensures
        r == bbox.ordered().holds(p),
{
    bbox.normalise().contains(p)
}

// ---------------------------------------------------------------------------
// Clicks
// ---------------------------------------------------------------------------

/// The box by which a click is tested; arrows, steps and banners have none.
pub open spec fn click_box(node: NodeView) -> Option<Bounds> {
    match node {
        NodeView::Text { rect, .. } => Some(rect),
        NodeView::Shape { rect, .. } => Some(rect),
        NodeView::Blur { rect, .. } => Some(rect),
        NodeView::Callout { rect, .. } => Some(rect),
        NodeView::Stamp { rect, .. } => Some(rect),
        NodeView::Magnify { target_rect, .. } => Some(target_rect),
        NodeView::Arrow { .. } | NodeView::Step { .. } | NodeView::CaptureInfo { .. } => None,
    }
}

/// Whether a click at `p` hits an annotation: by its box, or by `near` for one
/// that has none.
pub open spec fn hits(node: NodeView, p: Point, near: bool) -> bool {
    match click_box(node) {
        Some(b) => b.holds(p),
        None => near,
    }
}

/// The box by which a click on the annotation is tested.
pub fn rect_of(node: &AnnotationNode) -> (r: Option<Bounds>)
    ensures
        r == click_box(node@),
{
    match node {
        AnnotationNode::Text { rect, .. } => Some(*rect),
        AnnotationNode::Shape { rect, .. } => Some(*rect),
        AnnotationNode::Blur { rect, .. } => Some(*rect),
        AnnotationNode::Callout { rect, .. } => Some(*rect),
        AnnotationNode::Stamp { rect, .. } => Some(*rect),
        AnnotationNode::Magnify { target_rect, .. } => Some(*target_rect),
        AnnotationNode::Arrow { .. } | AnnotationNode::Step { .. } | AnnotationNode::CaptureInfo {
            ..
        } => None,
    }
}

/// Whether a click hits an annotation; `near` is the answer for an arrow, a step
/// or a banner.
pub fn hit_node(node: &AnnotationNode, p: Point, near: bool) -> (r: bool)
    ensures
        r == hits(node@, p, near),
{
    match rect_of(node) {
        Some(b) => b.contains(p),
        None => near,
    }
}

/// The topmost annotation that a click hits.
pub open spec fn topmost(s: Seq<NodeView>, p: Point, near: Seq<bool>) -> Option<NodeId>
    decreases s.len(),
{
    if s.len() == 0 {
        None
    } else if hits(s.last(), p, near[s.len() - 1]) {
        Some(s.last().id())
    } else {
        topmost(s.drop_last(), p, near)
    }
}

/// The topmost annotation that a click hits; `near` holds, for each annotation,
/// whether the point is near it, which counts for arrows, steps and banners.
pub fn hit_test(annotations: &Vec<AnnotationNode>, p: Point, near: &[bool]) -> (r: Option<NodeId>)
    requires
        near@.len() == annotations@.len(),
    ensures
        r == topmost(crate::editor::document::node_views(annotations@), p, near@),
{
    let ghost all = crate::editor::document::node_views(annotations@);
    let mut i: usize = annotations.len();
    assert(all.take(i as int) =~= all);
    while i > 0
        invariant
            i <= annotations@.len(),
            near@.len() == annotations@.len(),
            all == crate::editor::document::node_views(annotations@),
            topmost(all, p, near@) == topmost(all.take(i as int), p, near@),
        decreases i,
    {
        let ghost front = all.take(i as int);
        assert(front.drop_last() =~= all.take(i - 1));
        assert(front.last() == annotations@[i - 1]@);
        if hit_node(&annotations[i - 1], p, near[i - 1]) {
            return Some(annotations[i - 1].id());
        }
        i -= 1;
    }
    None
}

/// Nothing above the annotation that a click picks is hit by it.
pub proof fn law_click_picks_the_topmost(s: Seq<NodeView>, p: Point, near: Seq<bool>)
    ensures
        match topmost(s, p, near) {
            Some(id) => exists|i: int|
                #![trigger s[i]]
                0 <= i < s.len() && s[i].id() == id && hits(s[i], p, near[i]) && forall|k: int|
                    i < k < s.len() ==> !hits(#[trigger] s[k], p, near[k]),
            None => forall|k: int| 0 <= k < s.len() ==> !hits(#[trigger] s[k], p, near[k]),
        },
    decreases s.len(),
{
    if s.len() > 0 {
        let most = s.drop_last();
        law_click_picks_the_topmost(most, p, near);
        if hits(s.last(), p, near[s.len() - 1]) {
            assert(s[s.len() - 1].id() == topmost(s, p, near)->Some_0);
        } else if topmost(most, p, near) is Some {
            let id = topmost(most, p, near)->Some_0;
            let i = choose|i: int|
                #![trigger most[i]]
                0 <= i < most.len() && most[i].id() == id && hits(most[i], p, near[i])
                    && forall|k: int|
                    i < k < most.len() ==> !hits(#[trigger] most[k], p, near[k]);
            assert(s[i] == most[i]);
            assert forall|k: int| i < k < s.len() implies !hits(#[trigger] s[k], p, near[k]) by {
                if k < most.len() {
                    assert(s[k] == most[k]);
                }
            }
        } else {
            assert forall|k: int| 0 <= k < s.len() implies !hits(#[trigger] s[k], p, near[k]) by {
                if k < most.len() {
                    assert(s[k] == most[k]);
                }
            }
        }
    }
}

/// Which handle positions the pointer is near. Those of an arrow are its start
/// (`nw`) and its end (`se`); a step has one, at the right of its circle (`e`).
#[derive(Debug, Clone, Copy, PartialEq, Eq, Structural)]
pub struct NearHandles {
    pub nw: bool,
    pub n: bool,
    pub ne: bool,
    pub e: bool,
    pub se: bool,
    pub s: bool,
    pub sw: bool,
    pub w: bool,
}

/// The handle that a press grabs; the first in clockwise order from the top left
/// wins.
pub open spec fn grabbed(node: NodeView, near: NearHandles) -> Option<Handle> {
    match node {
        NodeView::Arrow { .. } => if near.nw {
            Some(Handle::NW)
        } else if near.se {
            Some(Handle::SE)
        } else {
            None
        },
        NodeView::Step { .. } => if near.e {
            Some(Handle::E)
        } else {
            None
        },
        NodeView::CaptureInfo { .. } => None,
        _ => if near.nw {
            Some(Handle::NW)
        } else if near.n {
            Some(Handle::N)
        } else if near.ne {
            Some(Handle::NE)
        } else if near.e {
            Some(Handle::E)
        } else if near.se {
            Some(Handle::SE)
        } else if near.s {
            Some(Handle::S)
        } else if near.sw {
            Some(Handle::SW)
        } else if near.w {
            Some(Handle::W)
        } else {
            None
        },
    }
}

/// The handle that a press grabs.
pub fn handle_at(node: &AnnotationNode, near: NearHandles) -> (r: Option<Handle>)
    ensures
        r == grabbed(node@, near),
{
    match node {
        AnnotationNode::Arrow { .. } => if near.nw {
            Some(Handle::NW)
        } else if near.se {
            Some(Handle::SE)
        } else {
            None
        },
        AnnotationNode::Step { .. } => if near.e {
            Some(Handle::E)
        } else {
            None
        },
        AnnotationNode::CaptureInfo { .. } => None,
        _ => if near.nw {
            Some(Handle::NW)
        } else if near.n {
            Some(Handle::N)
        } else if near.ne {
            Some(Handle::NE)
        } else if near.e {
            Some(Handle::E)
        } else if near.se {
            Some(Handle::SE)
        } else if near.s {
            Some(Handle::S)
        } else if near.sw {
            Some(Handle::SW)
        } else if near.w {
            Some(Handle::W)
        } else {
            None
        },
    }
}

// ---------------------------------------------------------------------------
// Moving and resizing
// ---------------------------------------------------------------------------

/// `shift` takes the point `a` to `b`.
pub open spec fn shifts<F: Fn(Point) -> Point>(shift: F, a: Point, b: Point) -> bool {
    call_ensures(shift, (a,), b)
}

/// `shift` takes both corners of the box `a` to those of `b`.
pub open spec fn shifts_box<F: Fn(Point) -> Point>(shift: F, a: Bounds, b: Bounds) -> bool {
    &&& shifts(shift, Point { x: a.min_x, y: a.min_y }, Point { x: b.min_x, y: b.min_y })
    &&& shifts(shift, Point { x: a.max_x, y: a.max_y }, Point { x: b.max_x, y: b.max_y })
}

/// Moves both corners of a box.
pub fn shift_box<F: Fn(Point) -> Point>(b: Bounds, shift: &F) -> (r: Bounds)
    requires
        forall|p: Point| call_requires(*shift, (p,)),
    ensures
        shifts_box(*shift, b, r),
{
    let lo = shift(Point { x: b.min_x, y: b.min_y });
    let hi = shift(Point { x: b.max_x, y: b.max_y });
    Bounds { min_x: lo.x, min_y: lo.y, max_x: hi.x, max_y: hi.y }
}

/// `after` is `base` with every point moved by `shift`: both ends and the control
/// point of an arrow, the balloon with its tail, both regions of a loupe. A
/// banner stays where it is, and nothing else changes.
pub open spec fn is_translated<F: Fn(Point) -> Point>(
    shift: F,
    base: NodeView,
    after: NodeView,
) -> bool {
    match (base, after) {
        (
            NodeView::Arrow { start, end, control, .. },
            NodeView::Arrow { start: s2, end: e2, control: c2, .. },
        ) => {
            &&& after == (NodeView::Arrow {
                id: base->Arrow_id,
                start: s2,
                end: e2,
                color: base->Arrow_color,
                thickness: base->Arrow_thickness,
                shadow: base->Arrow_shadow,
                line_style: base->Arrow_line_style,
                head_style: base->Arrow_head_style,
                control: c2,
            })
            &&& shifts(shift, start, s2)
            &&& shifts(shift, end, e2)
            &&& match (control, c2) {
                (Some(a), Some(b)) => shifts(shift, a, b),
                (None, None) => true,
                _ => false,
            }
        },
        (NodeView::Text { rect, .. }, NodeView::Text { rect: r2, .. }) => {
            &&& after == with_rect(base, r2)
            &&& shifts_box(shift, rect, r2)
        },
        (NodeView::Shape { rect, .. }, NodeView::Shape { rect: r2, .. }) => {
            &&& after == with_rect(base, r2)
            &&& shifts_box(shift, rect, r2)
        },
        (NodeView::Blur { rect, .. }, NodeView::Blur { rect: r2, .. }) => {
            &&& after == with_rect(base, r2)
            &&& shifts_box(shift, rect, r2)
        },
        (NodeView::Stamp { rect, .. }, NodeView::Stamp { rect: r2, .. }) => {
            &&& after == with_rect(base, r2)
            &&& shifts_box(shift, rect, r2)
        },
        (
            NodeView::Callout { rect, tail, .. },
            NodeView::Callout { rect: r2, tail: t2, .. },
        ) => {
            &&& after == (NodeView::Callout {
                id: base->Callout_id,
                rect: r2,
                tail: t2,
                text: base->Callout_text,
                fill: base->Callout_fill,
                stroke: base->Callout_stroke,
                stroke_width: base->Callout_stroke_width,
                text_color: base->Callout_text_color,
                text_size: base->Callout_text_size,
            })
            &&& shifts_box(shift, rect, r2)
            &&& shifts(shift, tail, t2)
        },
        (NodeView::Step { center, .. }, NodeView::Step { center: c2, .. }) => {
            &&& after == (NodeView::Step {
                id: base->Step_id,
                center: c2,
                radius: base->Step_radius,
                number: base->Step_number,
                fill: base->Step_fill,
                text_color: base->Step_text_color,
            })
            &&& shifts(shift, center, c2)
        },
        (
            NodeView::Magnify { source_rect, target_rect, .. },
            NodeView::Magnify { source_rect: s2, target_rect: t2, .. },
        ) => {
            &&& after == (NodeView::Magnify {
                id: base->Magnify_id,
                source_rect: s2,
                target_rect: t2,
                border: base->Magnify_border,
                border_width: base->Magnify_border_width,
                circular: base->Magnify_circular,
            })
            &&& shifts_box(shift, source_rect, s2)
            &&& shifts_box(shift, target_rect, t2)
        },
        (NodeView::CaptureInfo { .. }, _) => after == base,
        _ => false,
    }
}

/// An annotation with another box: the target box of a loupe; an arrow, a step
/// and a banner have none.
pub open spec fn with_rect(n: NodeView, rect: Bounds) -> NodeView {
    match n {
        NodeView::Text { id, rect: _, text, color, size_px, frosted, shadow, align, list } =>
        NodeView::Text { id, rect, text, color, size_px, frosted, shadow, align, list },
        NodeView::Shape { id, shape, rect: _, stroke, stroke_width, fill } => NodeView::Shape {
            id,
            shape,
            rect,
            stroke,
            stroke_width,
            fill,
        },
        NodeView::Blur { id, rect: _, radius_px } => NodeView::Blur { id, rect, radius_px },
        NodeView::Stamp { id, source, rect: _ } => NodeView::Stamp { id, source, rect },
        NodeView::Callout {
            id,
            rect: _,
            tail,
            text,
            fill,
            stroke,
            stroke_width,
            text_color,
            text_size,
        } => NodeView::Callout {
            id,
            rect,
            tail,
            text,
            fill,
            stroke,
            stroke_width,
            text_color,
            text_size,
        },
        NodeView::Magnify { id, source_rect, target_rect: _, border, border_width, circular } =>
        NodeView::Magnify {
            id,
            source_rect,
            target_rect: rect,
            border,
            border_width,
            circular,
        },
        _ => n,
    }
}

/// Moves an annotation.
pub fn translate_node<F: Fn(Point) -> Point>(base: &AnnotationNode, shift: &F) -> (r:
    AnnotationNode)
    requires
        forall|p: Point| call_requires(*shift, (p,)),
    ensures
        is_translated(*shift, base@, r@),
{
    let mut r = base.clone();
    match &mut r {
        AnnotationNode::Arrow { start, end, control, .. } => {
            *start = shift(*start);
            *end = shift(*end);
            match *control {
                Some(c) => {
                    *control = Some(shift(c));
                },
                None => {},
            }
        },
        AnnotationNode::Text { rect, .. } => {
            *rect = shift_box(*rect, shift);
        },
        AnnotationNode::Shape { rect, .. } => {
            *rect = shift_box(*rect, shift);
        },
        AnnotationNode::Blur { rect, .. } => {
            *rect = shift_box(*rect, shift);
        },
        AnnotationNode::Stamp { rect, .. } => {
            *rect = shift_box(*rect, shift);
        },
        AnnotationNode::Callout { rect, tail, .. } => {
            *rect = shift_box(*rect, shift);
            *tail = shift(*tail);
        },
        AnnotationNode::Step { center, .. } => {
            *center = shift(*center);
        },
        AnnotationNode::Magnify { source_rect, target_rect, .. } => {
            *source_rect = shift_box(*source_rect, shift);
            *target_rect = shift_box(*target_rect, shift);
        },
        AnnotationNode::CaptureInfo { .. } => {},
    }
    r
}

/// A box after a resize handle was dragged: its corners are put in order, so that
/// a handle may be pulled past the opposite edge.
pub fn resize_rect(r: Bounds, moved: Bounds, handle: Handle) -> (b: Bounds)
    ensures
        b == dragged(r, moved, handle).ordered(),
{
    drag_rect(r, moved, handle).normalise()
}

/// The radius `after` is `before`, grown by the way sideways, and at least 2.
pub open spec fn grows<F: Fn(Point) -> Point>(shift: F, before: Px, after: Px) -> bool {
    exists|moved: Point| #[trigger]
        shifts(shift, Point { x: before, y: before }, moved) && after == moved.x.larger(
            Px { bits: BITS_2 },
        )
}

/// `after` is `base` with one handle dragged. An arrow has its start (`NW`) and
/// its end (`SE`), a step its radius (`E`), which grows by the way sideways and does
/// not go below 2.
pub open spec fn is_resized<F: Fn(Point) -> Point>(
    shift: F,
    handle: Handle,
    base: NodeView,
    after: NodeView,
) -> bool {
    match (base, after) {
        (
            NodeView::Arrow { start, end, .. },
            NodeView::Arrow { start: s2, end: e2, .. },
        ) => {
            &&& after == (NodeView::Arrow {
                id: base->Arrow_id,
                start: s2,
                end: e2,
                color: base->Arrow_color,
                thickness: base->Arrow_thickness,
                shadow: base->Arrow_shadow,
                line_style: base->Arrow_line_style,
                head_style: base->Arrow_head_style,
                control: base->Arrow_control,
            })
            &&& if handle == Handle::NW {
                shifts(shift, start, s2)
            } else {
                s2 == start
            }
            &&& if handle == Handle::SE {
                shifts(shift, end, e2)
            } else {
                e2 == end
            }
        },
        (NodeView::Step { radius, .. }, NodeView::Step { radius: r2, .. }) => {
            &&& after == (NodeView::Step {
                id: base->Step_id,
                center: base->Step_center,
                radius: r2,
                number: base->Step_number,
                fill: base->Step_fill,
                text_color: base->Step_text_color,
            })
            &&& if handle == Handle::E {
                grows(shift, radius, r2)
            } else {
                r2 == radius
            }
        },
        (NodeView::CaptureInfo { .. }, _) => after == base,
        _ => match click_box(base) {
            Some(b) => exists|moved: Bounds|
                #[trigger] shifts_box(shift, b, moved) && after == with_rect(
                    base,
                    dragged(b, moved, handle).ordered(),
                ),
            None => false,
        },
    }
}

fn grow<F: Fn(Point) -> Point>(radius: Px, shift: &F) -> (r: Px)
    requires
        forall|p: Point| call_requires(*shift, (p,)),
    ensures
        grows(*shift, radius, r),
{
    let moved = shift(Point { x: radius, y: radius });
    assert(shifts(*shift, Point { x: radius, y: radius }, moved));
    moved.x.max(Px { bits: BITS_2 })
}

/// Drags a resize handle of an annotation.
pub fn resize_node<F: Fn(Point) -> Point>(
    base: &AnnotationNode,
    shift: &F,
    handle: Handle,
) -> (r: AnnotationNode)
    requires
        forall|p: Point| call_requires(*shift, (p,)),
    ensures
        is_resized(*shift, handle, base@, r@),
{
    let mut r = base.clone();
    match &mut r {
        AnnotationNode::Arrow { start, end, .. } => {
            if handle == Handle::NW {
                *start = shift(*start);
            } else if handle == Handle::SE {
                *end = shift(*end);
            }
        },
        AnnotationNode::Step { radius, .. } => {
            if handle == Handle::E {
                *radius = grow(*radius, shift);
            }
        },
        AnnotationNode::Text { rect, .. } => {
            let moved = shift_box(*rect, shift);
            *rect = resize_rect(*rect, moved, handle);
        },
        AnnotationNode::Shape { rect, .. } => {
            let moved = shift_box(*rect, shift);
            *rect = resize_rect(*rect, moved, handle);
        },
        AnnotationNode::Blur { rect, .. } => {
            let moved = shift_box(*rect, shift);
            *rect = resize_rect(*rect, moved, handle);
        },
        AnnotationNode::Stamp { rect, .. } => {
            let moved = shift_box(*rect, shift);
            *rect = resize_rect(*rect, moved, handle);
        },
        AnnotationNode::Callout { rect, .. } => {
            let moved = shift_box(*rect, shift);
            *rect = resize_rect(*rect, moved, handle);
        },
        AnnotationNode::Magnify { target_rect, .. } => {
            let moved = shift_box(*target_rect, shift);
            *target_rect = resize_rect(*target_rect, moved, handle);
        },
        AnnotationNode::CaptureInfo { .. } => {},
    }
    r
}

/// Moving and resizing keep an annotation's identity.
pub proof fn law_transforms_keep_identity<F: Fn(Point) -> Point>(
    shift: F,
    handle: Handle,
    base: NodeView,
    after: NodeView,
)
    ensures
        is_translated(shift, base, after) ==> after.id() == base.id(),
        is_resized(shift, handle, base, after) ==> after.id() == base.id(),
{
}

// ---------------------------------------------------------------------------
// Laws of the handles
// ---------------------------------------------------------------------------

/// Whether the place of a handle has its x from the left or right edge of the box: all
/// but those in the middle of the top and bottom.
pub open spec fn on_a_side(h: Handle) -> bool {
    h != Handle::N && h != Handle::S
}

/// Whether the place of a handle has its y from the top or bottom edge of the box.
pub open spec fn on_top_or_bottom(h: Handle) -> bool {
    h != Handle::E && h != Handle::W
}

/// A dragged handle follows the pointer: of each of the eight handles, the coordinates
/// that its place has from the edges of the box are those that they are in the box moved
/// along. The edges that it does not lie on stay, so the handle across stays where it
/// was: the eight places are listed from the top left to the bottom right, so that one
/// and the one across are as far from the two ends of the list.
pub proof fn law_dragged_handle_follows(bbox: Bounds, moved: Bounds, mid: Point, k: int)
    requires
        0 <= k < 8,
    ensures
        ({
            let (h, before) = handle_points(bbox, mid)[k];
            let b = dragged(bbox, moved, h);
            let now = handle_points(b, mid)[k].1;
            let goal = handle_points(moved, mid)[k].1;
            let across = handle_points(bbox, mid)[7 - k].1;
            let across_now = handle_points(b, mid)[7 - k].1;
            &&& on_a_side(h) ==> now.x == goal.x
            &&& on_top_or_bottom(h) ==> now.y == goal.y
            &&& on_a_side(h) ==> across_now.x == across.x
            &&& on_top_or_bottom(h) ==> across_now.y == across.y
            &&& !on_a_side(h) ==> b.min_x == bbox.min_x && b.max_x == bbox.max_x
            &&& !on_top_or_bottom(h) ==> b.min_y == bbox.min_y && b.max_y == bbox.max_y
        }),
{
}

/// Where the handles are: those named after north lie on the top edge, after south on
/// the bottom, after west on the left and after east on the right, and no two are named
/// alike.
pub proof fn law_handles_lie_where_they_are_named(bbox: Bounds, mid: Point, k: int, j: int)
    requires
        0 <= k < 8,
        0 <= j < 8,
    ensures
        ({
            let (h, p) = handle_points(bbox, mid)[k];
            &&& h == Handle::NW || h == Handle::N || h == Handle::NE <==> k <= 2
            &&& h == Handle::NW || h == Handle::N || h == Handle::NE ==> p.y == bbox.min_y
            &&& h == Handle::SW || h == Handle::S || h == Handle::SE ==> p.y == bbox.max_y
            &&& h == Handle::NW || h == Handle::W || h == Handle::SW ==> p.x == bbox.min_x
            &&& h == Handle::NE || h == Handle::E || h == Handle::SE ==> p.x == bbox.max_x
            &&& h == Handle::N || h == Handle::S ==> p.x == mid.x
            &&& h == Handle::W || h == Handle::E ==> p.y == mid.y
            &&& j != k ==> handle_points(bbox, mid)[j].0 != h
            &&& handle_points(bbox, mid).len() == 8
        }),
{
}

/// The body takes all four edges along, and a handle that is none of the nine leaves
/// the box as it was.
pub proof fn law_body_moves_the_whole_box(bbox: Bounds, moved: Bounds, h: Handle)
    ensures
        dragged(bbox, moved, Handle::Body) == moved,
        h == Handle::CalloutTail || h == Handle::MagnifySource || h == Handle::ArrowStart || h
            == Handle::ArrowEnd || h == Handle::ArrowMid ==> dragged(bbox, moved, h) == bbox,
        dragged(bbox, bbox, h) == bbox,
{
}

/// The box of an annotation is its rectangle, where it has one: the target of a
/// loupe. A marker has its circle's, a banner none. Each side of an arrow's box
/// goes through one of its points.
pub proof fn law_box_fits_the_annotation(node: NodeView, circle: Bounds)
    ensures
        node matches NodeView::Text { rect, .. } ==> box_of(node, circle) == Some(rect),
        node matches NodeView::Callout { rect, .. } ==> box_of(node, circle) == Some(rect),
        node matches NodeView::Shape { rect, .. } ==> box_of(node, circle) == Some(rect),
        node matches NodeView::Stamp { rect, .. } ==> box_of(node, circle) == Some(rect),
        node matches NodeView::Blur { rect, .. } ==> box_of(node, circle) == Some(rect),
        node matches NodeView::Magnify { target_rect, .. } ==> box_of(node, circle) == Some(
            target_rect,
        ),
        node is Step ==> box_of(node, circle) == Some(circle),
        node is CaptureInfo <==> box_of(node, circle) is None,
        node matches NodeView::Arrow { start, end, control, .. } ==> ({
            let b = box_of(node, circle)->Some_0;
            &&& b.min_x == start.x || b.min_x == end.x || (control is Some && b.min_x
                == control->Some_0.x)
            &&& b.max_x == start.x || b.max_x == end.x || (control is Some && b.max_x
                == control->Some_0.x)
            &&& b.min_y == start.y || b.min_y == end.y || (control is Some && b.min_y
                == control->Some_0.y)
            &&& b.max_y == start.y || b.max_y == end.y || (control is Some && b.max_y
                == control->Some_0.y)
            &&& !start.x.is_nan() && !end.x.is_nan() && control is None ==> b.min_x.at_most(start.x)
                && b.min_x.at_most(end.x) && start.x.at_most(b.max_x) && end.x.at_most(b.max_x)
            &&& !start.y.is_nan() && !end.y.is_nan() && control is None ==> b.min_y.at_most(start.y)
                && b.min_y.at_most(end.y) && start.y.at_most(b.max_y) && end.y.at_most(b.max_y)
        }),
{
}

/// What has a rectangle is hit inside it and on its edge, wherever else a click
/// is near; an arrow, a marker and a banner are hit where a click is near.
pub proof fn law_click_hits_the_rectangle(node: NodeView, p: Point, near: bool)
    ensures
        node is Arrow || node is Step || node is CaptureInfo ==> hits(node, p, near) == near,
        node matches NodeView::Text { rect, .. } ==> hits(node, p, near) == rect.holds(p),
        node matches NodeView::Callout { rect, .. } ==> hits(node, p, near) == rect.holds(p),
        node matches NodeView::Shape { rect, .. } ==> hits(node, p, near) == rect.holds(p),
        node matches NodeView::Stamp { rect, .. } ==> hits(node, p, near) == rect.holds(p),
        node matches NodeView::Blur { rect, .. } ==> hits(node, p, near) == rect.holds(p),
        node matches NodeView::Magnify { target_rect, .. } ==> hits(node, p, near)
            == target_rect.holds(p),
{
}

/// The handles of a box clockwise from the top left, each with whether a click
/// is near it.
pub open spec fn clockwise(near: NearHandles) -> Seq<(Handle, bool)> {
    seq![
        (Handle::NW, near.nw),
        (Handle::N, near.n),
        (Handle::NE, near.ne),
        (Handle::E, near.e),
        (Handle::SE, near.se),
        (Handle::S, near.s),
        (Handle::SW, near.sw),
        (Handle::W, near.w),
    ]
}

/// A click grabs the first handle, clockwise from the top left, that it is near.
/// An arrow has only those of its two ends, a marker only the one at its right,
/// a banner none.
pub proof fn law_grabbed_handle_is_near(node: NodeView, near: NearHandles, k: int)
    requires
        0 <= k < 8,
    ensures
        ({
            let all = clockwise(near);
            let boxed = !(node is Arrow) && !(node is Step) && !(node is CaptureInfo);
            &&& boxed && all[k].1 && (forall|j: int| 0 <= j < k ==> !(#[trigger] all[j]).1)
                ==> grabbed(node, near) == Some(all[k].0)
            &&& boxed && (forall|j: int| 0 <= j < 8 ==> !(#[trigger] all[j]).1) ==> grabbed(
                node,
                near,
            ) is None
        }),
        node is Arrow ==> (grabbed(node, near) == Some(Handle::NW) <==> near.nw) && (grabbed(
            node,
            near,
        ) == Some(Handle::SE) <==> near.se && !near.nw) && (grabbed(node, near) is None
            <==> !near.nw && !near.se),
        node is Step ==> (grabbed(node, near) == Some(Handle::E) <==> near.e) && (grabbed(
            node,
            near,
        ) is None <==> !near.e),
        node is CaptureInfo ==> grabbed(node, near) is None,
{
    let all = clockwise(near);
    assert(all[0].1 == near.nw && all[1].1 == near.n && all[2].1 == near.ne && all[3].1 == near.e
        && all[4].1 == near.se && all[5].1 == near.s && all[6].1 == near.sw && all[7].1 == near.w);
}

/// A rectangle put on an annotation is the one that it has then, and putting
/// the old one back restores it.
pub proof fn law_rectangle_is_replaced(n: NodeView, rect: Bounds)
    ensures
        click_box(n) is Some ==> click_box(with_rect(n, rect)) == Some(rect),
        click_box(n) matches Some(old_rect) ==> with_rect(with_rect(n, rect), old_rect) == n,
        click_box(n) is None ==> with_rect(n, rect) == n,
        with_rect(n, rect).id() == n.id(),
{
}

/// The box that a map of points makes of a box.
pub open spec fn mapped(f: spec_fn(Point) -> Point, b: Bounds) -> Bounds {
    let low = f(Point { x: b.min_x, y: b.min_y });
    let high = f(Point { x: b.max_x, y: b.max_y });
    Bounds { min_x: low.x, min_y: low.y, max_x: high.x, max_y: high.y }
}

/// Moving an annotation moves every point of it alike and changes nothing else:
/// an arrow's ends and bend, a balloon's tail, both boxes of a loupe. A banner
/// stays in its corner.
pub proof fn law_moving_moves_every_point<F: Fn(Point) -> Point>(
    shift: F,
    f: spec_fn(Point) -> Point,
    base: NodeView,
    after: NodeView,
)
    requires
        forall|a: Point, b: Point| #[trigger] shifts(shift, a, b) ==> b == f(a),
        is_translated(shift, base, after),
    ensures
        click_box(base) matches Some(b) ==> click_box(after) == Some(mapped(f, b)),
        base matches NodeView::Callout { tail, .. } ==> after->Callout_tail == f(tail),
        base matches NodeView::Magnify { source_rect, .. } ==> after->Magnify_source_rect == mapped(
            f,
            source_rect,
        ),
        base matches NodeView::Arrow { start, end, control, .. } ==> after is Arrow
            && after->Arrow_start == f(start) && after->Arrow_end == f(end) && after->Arrow_control
            == (match control {
            Some(c) => Some(f(c)),
            None => None,
        }),
        base matches NodeView::Step { center, .. } ==> after is Step && after->Step_center == f(
            center,
        ) && after->Step_radius == base->Step_radius && after->Step_number == base->Step_number,
        base is CaptureInfo ==> after == base,
        (forall|p: Point| #[trigger] f(p) == p) ==> after == base,
{
    assert(f(Point { x: click_box(base)->Some_0.min_x, y: click_box(base)->Some_0.min_y })
        == f(Point { x: click_box(base)->Some_0.min_x, y: click_box(base)->Some_0.min_y }));
}

/// Resizing an annotation with a rectangle drags the handle of that rectangle
/// and puts its corners in order; nothing else of it changes.
pub proof fn law_resizing_changes_the_rectangle<F: Fn(Point) -> Point>(
    shift: F,
    f: spec_fn(Point) -> Point,
    handle: Handle,
    base: NodeView,
    after: NodeView,
)
    requires
        forall|a: Point, b: Point| #[trigger] shifts(shift, a, b) ==> b == f(a),
        is_resized(shift, handle, base, after),
    ensures
        click_box(base) matches Some(b) ==> click_box(after) == Some(
            dragged(b, mapped(f, b), handle).ordered(),
        ) && with_rect(after, b) == base,
        base is CaptureInfo ==> after == base,
{
    if click_box(base) is Some {
        let b = click_box(base)->Some_0;
        let moved = choose|moved: Bounds|
            #[trigger] shifts_box(shift, b, moved) && after == with_rect(
                base,
                dragged(b, moved, handle).ordered(),
            );
        assert(moved == mapped(f, b));
        law_rectangle_is_replaced(base, dragged(b, moved, handle).ordered());
    }
}

/// An arrow is resized at the end that is grabbed and nowhere else; a marker
/// only at its right, where its radius follows but stays at least two pixels.
pub proof fn law_resizing_arrows_and_markers<F: Fn(Point) -> Point>(
    shift: F,
    f: spec_fn(Point) -> Point,
    handle: Handle,
    base: NodeView,
    after: NodeView,
)
    requires
        forall|a: Point, b: Point| #[trigger] shifts(shift, a, b) ==> b == f(a),
        is_resized(shift, handle, base, after),
    ensures
        base matches NodeView::Arrow { start, end, control, .. } ==> {
            &&& after is Arrow && after->Arrow_control == control
            &&& handle == Handle::NW ==> after->Arrow_start == f(start)
            &&& handle == Handle::SE ==> after->Arrow_end == f(end)
            &&& handle != Handle::NW ==> after->Arrow_start == start
            &&& handle != Handle::SE ==> after->Arrow_end == end
            &&& handle != Handle::NW && handle != Handle::SE ==> after == base
        },
        base matches NodeView::Step { center, radius, number, .. } ==> {
            &&& after is Step && after->Step_center == center && after->Step_number == number
            &&& handle != Handle::E ==> after == base
            &&& handle == Handle::E ==> ({
                let wanted = f(Point { x: radius, y: radius }).x;
                let least = Px { bits: 0x4000_0000 };
                &&& least.at_most(after->Step_radius)
                &&& least.at_most(wanted) ==> after->Step_radius.rank() == wanted.rank()
                &&& !least.at_most(wanted) ==> after->Step_radius == least
            })
        },
{
    if base is Step && handle == Handle::E {
        let radius = base->Step_radius;
        let moved = choose|moved: Point| #[trigger]
            shifts(shift, Point { x: radius, y: radius }, moved) && after->Step_radius
                == moved.x.larger(Px { bits: BITS_2 });
        assert(moved == f(Point { x: radius, y: radius }));
    }
}

} // verus!
