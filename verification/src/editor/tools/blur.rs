//! Blur tool: the document holds the region and the strength only; the pixels
//! are blurred when the picture is exported.
use vstd::prelude::*;
use crate::editor::document::{AnnotationNode, NodeId, NodeView};
use crate::px::{Bounds, Px, BITS_HALF};

verus! {

/// A new blurred region, with a strength of at least one half.
pub fn make(rect: Bounds, radius_px: Px) -> (r: AnnotationNode)
    ensures
        crate::editor::document::is_random_uuid(r@.id().value),
        r@ == (NodeView::Blur {
            id: r@.id(),
            rect,
            radius_px: radius_px.larger(Px { bits: BITS_HALF }),
        }),
{
    AnnotationNode::Blur {
        id: NodeId::random(),
        rect,
        radius_px: radius_px.max(Px { bits: BITS_HALF }),
    }
}

} // verus!
