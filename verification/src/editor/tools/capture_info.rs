//! Capture-info tool: a banner whose text is made from the document's metadata
//! when the picture is exported.
use vstd::prelude::*;
use crate::editor::document::{
    AnnotationNode, CaptureInfoPosition, CaptureInfoStyle, FieldKind, NodeId, NodeView,
};

verus! {

/// A new banner.
pub fn make(
    position: CaptureInfoPosition,
    fields: Vec<FieldKind>,
    style: CaptureInfoStyle,
) -> (r: AnnotationNode)
    ensures
        crate::editor::document::is_random_uuid(r@.id().value),
        r@ == (NodeView::CaptureInfo { id: r@.id(), position, fields: fields@, style }),
{
    AnnotationNode::CaptureInfo { id: NodeId::random(), position, fields, style }
}

/// The fields of a banner when the tool is first used, in order.
pub fn default_fields() -> (r: Vec<FieldKind>)
    ensures
        r@ == seq![
            FieldKind::Timestamp,
            FieldKind::WindowTitle,
            FieldKind::ProcessName,
            FieldKind::OsVersion,
        ],
{
    let mut out: Vec<FieldKind> = Vec::new();
    out.push(FieldKind::Timestamp);
    out.push(FieldKind::WindowTitle);
    out.push(FieldKind::ProcessName);
    out.push(FieldKind::OsVersion);
    assert(out@ =~= seq![
        FieldKind::Timestamp,
        FieldKind::WindowTitle,
        FieldKind::ProcessName,
        FieldKind::OsVersion,
    ]);
    out
}

} // verus!
