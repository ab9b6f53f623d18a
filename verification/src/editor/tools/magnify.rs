//! Magnify tool: the pixels of one region, scaled into another.
use vstd::prelude::*;
use crate::editor::document::{AnnotationNode, NodeId, NodeView};
use crate::px::{Bounds, Px, Rgba};

verus! {

/// A new loupe.
pub fn make(
    target_rect: Bounds,
    source_rect: Bounds,
    border: Rgba,
    border_width: Px,
    circular: bool,
) -> (r: AnnotationNode)
    ensures
        crate::editor::document::is_random_uuid(r@.id().value),
        r@ == (NodeView::Magnify {
            id: r@.id(),
            source_rect,
            target_rect,
            border,
            border_width,
            circular,
        }),
{
    AnnotationNode::Magnify {
        id: NodeId::random(),
        source_rect,
        target_rect,
        border,
        border_width,
        circular,
    }
}

} // verus!
