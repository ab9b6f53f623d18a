//! Text tool.
use vstd::prelude::*;
use crate::editor::document::{AnnotationNode, NodeId, NodeView, TextAlign, TextListStyle};
use crate::px::{Bounds, Px, Rgba};

verus! {

/// A new text box.
pub fn make(
    rect: Bounds,
    text: String,
    color: Rgba,
    size_px: Px,
    frosted: bool,
    shadow: bool,
    align: TextAlign,
    list: TextListStyle,
) -> (r: AnnotationNode)
    ensures
        crate::editor::document::is_random_uuid(r@.id().value),
        r@ == (NodeView::Text {
            id: r@.id(),
            rect,
            text: text@,
            color,
            size_px,
            frosted,
            shadow,
            align,
            list,
        }),
{
    AnnotationNode::Text {
        id: NodeId::random(),
        rect,
        text,
        color,
        size_px,
        frosted,
        shadow,
        align,
        list,
    }
}

} // verus!
