//! Callout tool: a speech balloon with a tail.
use vstd::prelude::*;
use crate::editor::document::{AnnotationNode, NodeId, NodeView};
use crate::px::{Bounds, Point, Px, Rgba};

verus! {

/// A new balloon whose tail ends at `tail`.
pub fn make(
    rect: Bounds,
    tail: Point,
    text: String,
    fill: Rgba,
    stroke: Rgba,
    stroke_width: Px,
    text_color: Rgba,
    text_size: Px,
) -> (r: AnnotationNode)
    ensures
        crate::editor::document::is_random_uuid(r@.id().value),
        r@ == (NodeView::Callout {
            id: r@.id(),
            rect,
            tail,
            text: text@,
            fill,
            stroke,
            stroke_width,
            text_color,
            text_size,
        }),
{
    AnnotationNode::Callout {
        id: NodeId::random(),
        rect,
        tail,
        text,
        fill,
        stroke,
        stroke_width,
        text_color,
        text_size,
    }
}

} // verus!
