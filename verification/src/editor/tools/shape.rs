//! Shape tool: rectangles and ellipses.
use vstd::prelude::*;
use crate::editor::document::{AnnotationNode, NodeId, NodeView, ShapeKind};
use crate::px::{Bounds, Px, Rgba};

verus! {

/// A new rectangle or ellipse.
pub fn make(
    shape: ShapeKind,
    rect: Bounds,
    stroke: Rgba,
    stroke_width: Px,
    fill: Rgba,
) -> (r: AnnotationNode)
    ensures
        crate::editor::document::is_random_uuid(r@.id().value),
        r@ == (NodeView::Shape { id: r@.id(), shape, rect, stroke, stroke_width, fill }),
{
    AnnotationNode::Shape { id: NodeId::random(), shape, rect, stroke, stroke_width, fill }
}

} // verus!
