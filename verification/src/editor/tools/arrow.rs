//! Arrow tool.
use vstd::prelude::*;
use crate::editor::document::{AnnotationNode, ArrowHeadStyle, ArrowLineStyle, NodeId, NodeView};
use crate::px::{Point, Px, Rgba};

verus! {

/// A new straight arrow.
pub fn make(
    start: Point,
    end: Point,
    color: Rgba,
    thickness: Px,
    shadow: bool,
    line_style: ArrowLineStyle,
    head_style: ArrowHeadStyle,
) -> (r: AnnotationNode)
    ensures
        crate::editor::document::is_random_uuid(r@.id().value),
        r@ == (NodeView::Arrow {
            id: r@.id(),
            start,
            end,
            color,
            thickness,
            shadow,
            line_style,
            head_style,
            control: None,
        }),
{
    AnnotationNode::Arrow {
        id: NodeId::random(),
        start,
        end,
        color,
        thickness,
        shadow,
        line_style,
        head_style,
        control: None,
    }
}

} // verus!
