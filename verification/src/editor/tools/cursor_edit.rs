//! Dragging and resizing the cursor layer.
use vstd::prelude::*;
use crate::editor::commands::Placement;

verus! {

/// The least width and height of the cursor layer: its handles can still be grabbed.
pub const LEAST_SIDE: u32 = 4;

/// A dragged place of the cursor layer with its sides held at the least one.
pub open spec fn rect_applied(p: Placement) -> Placement {
    (
        p.0,
        p.1,
        if p.2 < LEAST_SIDE {
            LEAST_SIDE
        } else {
            p.2
        },
        if p.3 < LEAST_SIDE {
            LEAST_SIDE
        } else {
            p.3
        },
    )
}

/// Where the cursor layer goes when its box is dragged to this place.
pub fn apply_rect(p: Placement) -> (r: Placement)
    ensures
        r == rect_applied(p),
{
    let w: u32 = if p.2 < LEAST_SIDE {
        LEAST_SIDE
    } else {
        p.2
    };
    let h: u32 = if p.3 < LEAST_SIDE {
        LEAST_SIDE
    } else {
        p.3
    };
    (p.0, p.1, w, h)
}

/// A cursor keeps its place and every side that is large enough; a smaller side
/// becomes as small as a cursor may be.
pub proof fn law_cursor_stays_large_enough(p: Placement)
    ensures
        rect_applied(p).0 == p.0 && rect_applied(p).1 == p.1,
        rect_applied(p).2 >= 4 && rect_applied(p).3 >= 4,
        p.2 >= 4 ==> rect_applied(p).2 == p.2,
        p.3 >= 4 ==> rect_applied(p).3 == p.3,
        p.2 < 4 ==> rect_applied(p).2 == 4,
        p.3 < 4 ==> rect_applied(p).3 == 4,
{
}

} // verus!
