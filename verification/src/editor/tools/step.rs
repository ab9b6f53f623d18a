//! Step tool: numbered markers.
use vstd::prelude::*;
use crate::editor::document::{AnnotationNode, Document, NodeId, NodeView};
use crate::px::{Point, Px, Rgba};

verus! {

/// The largest step number among the annotations, or zero.
pub open spec fn largest_number(s: Seq<NodeView>) -> u32
    decreases s.len(),
{
    if s.len() == 0 {
        0
    } else {
        let head = largest_number(s.drop_last());
        match s.last() {
            NodeView::Step { number, .. } => if number > head {
                number
            } else {
                head
            },
            _ => head,
        }
    }
}

/// The next step number of a document: one more than the largest, so that no
/// counter has to be wound back when a step is undone.
pub fn next_number(doc: &Document) -> (r: u32)
    requires
        largest_number(doc@.annotations) < u32::MAX,
    ensures
        r == largest_number(doc@.annotations) + 1,
{
    let ghost all = doc@.annotations;
    let mut max: u32 = 0;
    let mut i: usize = 0;
    assert(all.take(0) =~= Seq::empty());
    while i < doc.annotations.len()
        invariant
            i <= doc.annotations@.len(),
            all == doc@.annotations,
            max == largest_number(all.take(i as int)),
        decreases doc.annotations@.len() - i,
    {
        assert(all.take(i + 1).drop_last() =~= all.take(i as int));
        assert(all.take(i + 1).last() == doc.annotations@[i as int]@);
        match &doc.annotations[i] {
            AnnotationNode::Step { number, .. } => {
                if *number > max {
                    max = *number;
                }
            },
            _ => {},
        }
        i += 1;
    }
    assert(all.take(i as int) =~= all);
    max + 1
}

/// The next number is not the number of any step, and larger than all of them.
pub proof fn law_next_number_is_new(s: Seq<NodeView>, i: int)
    requires
        0 <= i < s.len(),
    ensures
        s[i] matches NodeView::Step { number, .. } ==> number < largest_number(s) + 1,
    decreases s.len(),
{
    if i < s.len() - 1 {
        law_next_number_is_new(s.drop_last(), i);
    }
}

/// A new marker.
pub fn make(center: Point, radius: Px, number: u32, fill: Rgba, text_color: Rgba) -> (r:
    AnnotationNode)
    ensures
        crate::editor::document::is_random_uuid(r@.id().value),
        r@ == (NodeView::Step { id: r@.id(), center, radius, number, fill, text_color }),
{
    AnnotationNode::Step { id: NodeId::random(), center, radius, number, fill, text_color }
}

/// The largest number is one that some marker bears, or zero where there is no
/// marker.
pub proof fn law_largest_number_is_borne(s: Seq<NodeView>)
    ensures
        largest_number(s) == 0 || exists|i: int|
            0 <= i < s.len() && (#[trigger] s[i] matches NodeView::Step { number, .. } && number
                == largest_number(s)),
    decreases s.len(),
{
    if s.len() > 0 {
        law_largest_number_is_borne(s.drop_last());
        let head = largest_number(s.drop_last());
        if head != 0 {
            let i = choose|i: int|
                0 <= i < s.drop_last().len() && (#[trigger] s.drop_last()[i] matches NodeView::Step {
                    number,
                    ..
                } && number == head);
            assert(s[i] == s.drop_last()[i]);
        }
        assert(s[s.len() - 1] == s.last());
    }
}

} // verus!
