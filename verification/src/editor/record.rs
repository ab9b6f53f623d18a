//! What a `.grabit` file holds of a document. Some fields came later than others; a
//! file that was written before them lacks them, and gets the values that leave the
//! document as it looked then.
use vstd::prelude::*;
use crate::capture::{CaptureMetadata, MetadataView};
use crate::editor::document::{
    copy_bytes, AnnotationNode, ArrowHeadStyle, ArrowLineStyle, Border, CursorView, Document,
    DocumentView, EdgeEffect, NodeId, NodeView, SerializedCursor, TextAlign, TextListStyle,
};
use crate::px::{Bounds, Point, Px, Rgba};

verus! {

// ---------------------------------------------------------------------------
// Annotations
// ---------------------------------------------------------------------------

/// An annotation in a file. Only arrows and text boxes have grown.
#[derive(Debug)]
pub enum NodeRecord {
    Arrow {
        id: NodeId,
        start: Point,
        end: Point,
        color: Rgba,
        thickness: Px,
        shadow: Option<bool>,
        line_style: Option<ArrowLineStyle>,
        head_style: Option<ArrowHeadStyle>,
        control: Option<Point>,
    },
    Text {
        id: NodeId,
        rect: Bounds,
        text: String,
        color: Rgba,
        size_px: Px,
        frosted: Option<bool>,
        shadow: Option<bool>,
        align: Option<TextAlign>,
        list: Option<TextListStyle>,
    },
    /// Any other annotation: it has had all its fields from the first.
    Plain(AnnotationNode),
}

/// An annotation in a file, as plain values.
#[verifier::ext_equal]
pub enum NodeRecordView {
    Arrow {
        id: NodeId,
        start: Point,
        end: Point,
        color: Rgba,
        thickness: Px,
        shadow: Option<bool>,
        line_style: Option<ArrowLineStyle>,
        head_style: Option<ArrowHeadStyle>,
        control: Option<Point>,
    },
    Text {
        id: NodeId,
        rect: Bounds,
        text: Seq<char>,
        color: Rgba,
        size_px: Px,
        frosted: Option<bool>,
        shadow: Option<bool>,
        align: Option<TextAlign>,
        list: Option<TextListStyle>,
    },
    Plain(NodeView),
}

impl View for NodeRecord {
    type V = NodeRecordView;

    open spec fn view(&self) -> NodeRecordView {
        match *self {
            NodeRecord::Arrow {
                id,
                start,
                end,
                color,
                thickness,
                shadow,
                line_style,
                head_style,
                control,
            } => NodeRecordView::Arrow {
                id,
                start,
                end,
                color,
                thickness,
                shadow,
                line_style,
                head_style,
                control,
            },
            NodeRecord::Text { id, rect, text, color, size_px, frosted, shadow, align, list } =>
            NodeRecordView::Text {
                id,
                rect,
                text: text@,
                color,
                size_px,
                frosted,
                shadow,
                align,
                list,
            },
            NodeRecord::Plain(n) => NodeRecordView::Plain(n@),
        }
    }
}

/// The value in the file, or the one that stands for its absence.
pub open spec fn given<T>(v: Option<T>, otherwise: T) -> T {
    match v {
        Some(v) => v,
        None => otherwise,
    }
}

/// The annotation that a record stands for.
pub open spec fn restored(r: NodeRecordView) -> NodeView {
    match r {
        NodeRecordView::Arrow {
            id,
            start,
            end,
            color,
            thickness,
            shadow,
            line_style,
            head_style,
            control,
        } => NodeView::Arrow {
            id,
            start,
            end,
            color,
            thickness,
            shadow: given(shadow, false),
            line_style: given(line_style, ArrowLineStyle::Solid),
            head_style: given(head_style, ArrowHeadStyle::FilledTriangle),
            control,
        },
        NodeRecordView::Text { id, rect, text, color, size_px, frosted, shadow, align, list } =>
        NodeView::Text {
            id,
            rect,
            text,
            color,
            size_px,
            frosted: given(frosted, false),
            shadow: given(shadow, false),
            align: given(align, TextAlign::Left),
            list: given(list, TextListStyle::Plain),
        },
        NodeRecordView::Plain(n) => n,
    }
}

/// An annotation as the present version writes it, with all its fields.
pub open spec fn recorded(n: NodeView) -> NodeRecordView {
    match n {
        NodeView::Arrow {
            id,
            start,
            end,
            color,
            thickness,
            shadow,
            line_style,
            head_style,
            control,
        } => NodeRecordView::Arrow {
            id,
            start,
            end,
            color,
            thickness,
            shadow: Some(shadow),
            line_style: Some(line_style),
            head_style: Some(head_style),
            control,
        },
        NodeView::Text { id, rect, text, color, size_px, frosted, shadow, align, list } =>
        NodeRecordView::Text {
            id,
            rect,
            text,
            color,
            size_px,
            frosted: Some(frosted),
            shadow: Some(shadow),
            align: Some(align),
            list: Some(list),
        },
        _ => NodeRecordView::Plain(n),
    }
}

fn flag_or(v: Option<bool>, otherwise: bool) -> (r: bool)
    ensures
        r == given(v, otherwise),
{
    match v {
        Some(v) => v,
        None => otherwise,
    }
}

/// Reads an annotation.
pub fn restore_node(r: &NodeRecord) -> (n: AnnotationNode)
    ensures
        n@ == restored(r@),
{
    match r {
        NodeRecord::Arrow {
            id,
            start,
            end,
            color,
            thickness,
            shadow,
            line_style,
            head_style,
            control,
        } => AnnotationNode::Arrow {
            id: *id,
            start: *start,
            end: *end,
            color: *color,
            thickness: *thickness,
            shadow: flag_or(*shadow, false),
            line_style: match line_style {
                Some(s) => *s,
                None => ArrowLineStyle::Solid,
            },
            head_style: match head_style {
                Some(s) => *s,
                None => ArrowHeadStyle::FilledTriangle,
            },
            control: *control,
        },
        NodeRecord::Text { id, rect, text, color, size_px, frosted, shadow, align, list } =>
        AnnotationNode::Text {
            id: *id,
            rect: *rect,
            text: text.clone(),
            color: *color,
            size_px: *size_px,
            frosted: flag_or(*frosted, false),
            shadow: flag_or(*shadow, false),
            align: match align {
                Some(a) => *a,
                None => TextAlign::Left,
            },
            list: match list {
                Some(l) => *l,
                None => TextListStyle::Plain,
            },
        },
        NodeRecord::Plain(n) => n.clone(),
    }
}

/// Writes an annotation, with all its fields.
pub fn record_node(n: &AnnotationNode) -> (r: NodeRecord)
    ensures
        r@ == recorded(n@),
{
    match n {
        AnnotationNode::Arrow {
            id,
            start,
            end,
            color,
            thickness,
            shadow,
            line_style,
            head_style,
            control,
        } => NodeRecord::Arrow {
            id: *id,
            start: *start,
            end: *end,
            color: *color,
            thickness: *thickness,
            shadow: Some(*shadow),
            line_style: Some(*line_style),
            head_style: Some(*head_style),
            control: *control,
        },
        AnnotationNode::Text { id, rect, text, color, size_px, frosted, shadow, align, list } =>
        NodeRecord::Text {
            id: *id,
            rect: *rect,
            text: text.clone(),
            color: *color,
            size_px: *size_px,
            frosted: Some(*frosted),
            shadow: Some(*shadow),
            align: Some(*align),
            list: Some(*list),
        },
        _ => NodeRecord::Plain(n.clone()),
    }
}

// ---------------------------------------------------------------------------
// Documents
// ---------------------------------------------------------------------------

/// A document in a file. The last two fields may be missing, which is as if they held
/// nothing.
#[derive(Debug)]
pub struct DocumentRecord {
    pub schema_version: u32,
    pub id: NodeId,
    pub base_png: Vec<u8>,
    pub base_width: u32,
    pub base_height: u32,
    pub cursor: Option<SerializedCursor>,
    pub annotations: Vec<NodeRecord>,
    pub metadata: CaptureMetadata,
    pub edge_effect: Option<EdgeEffect>,
    pub border: Option<Border>,
}

/// A document in a file, as plain values.
#[verifier::ext_equal]
pub struct DocumentRecordView {
    pub schema_version: u32,
    pub id: NodeId,
    pub base_png: Seq<u8>,
    pub base_width: u32,
    pub base_height: u32,
    pub cursor: Option<CursorView>,
    pub annotations: Seq<NodeRecordView>,
    pub metadata: MetadataView,
    pub edge_effect: Option<EdgeEffect>,
    pub border: Option<Border>,
}

/// The views of records.
pub open spec fn record_views(v: Seq<NodeRecord>) -> Seq<NodeRecordView> {
    v.map_values(|r: NodeRecord| r@)
}

impl View for DocumentRecord {
    type V = DocumentRecordView;

    open spec fn view(&self) -> DocumentRecordView {
        DocumentRecordView {
            schema_version: self.schema_version,
            id: self.id,
            base_png: self.base_png@,
            base_width: self.base_width,
            base_height: self.base_height,
            cursor: crate::editor::document::cursor_view(self.cursor),
            annotations: record_views(self.annotations@),
            metadata: self.metadata@,
            edge_effect: self.edge_effect,
            border: self.border,
        }
    }
}

/// The document that a record stands for. Its version stays the one it was written
/// in.
pub open spec fn document_restored(d: DocumentRecordView) -> DocumentView {
    DocumentView {
        schema_version: d.schema_version,
        id: d.id,
        base_png: d.base_png,
        base_width: d.base_width,
        base_height: d.base_height,
        cursor: d.cursor,
        annotations: d.annotations.map_values(|r: NodeRecordView| restored(r)),
        metadata: d.metadata,
        edge_effect: d.edge_effect,
        border: d.border,
    }
}

/// A document as the present version writes it.
pub open spec fn document_recorded(d: DocumentView) -> DocumentRecordView {
    DocumentRecordView {
        schema_version: d.schema_version,
        id: d.id,
        base_png: d.base_png,
        base_width: d.base_width,
        base_height: d.base_height,
        cursor: d.cursor,
        annotations: d.annotations.map_values(|n: NodeView| recorded(n)),
        metadata: d.metadata,
        edge_effect: d.edge_effect,
        border: d.border,
    }
}

fn copy_cursor(c: &Option<SerializedCursor>) -> (r: Option<SerializedCursor>)
    ensures
        crate::editor::document::cursor_view(r) == crate::editor::document::cursor_view(*c),
{
    match c {
        Some(c) => Some(
            SerializedCursor {
                png: copy_bytes(&c.png),
                width: c.width,
                height: c.height,
                x: c.x,
                y: c.y,
            },
        ),
        None => None,
    }
}

/// Reads a document.
pub fn restore(d: &DocumentRecord) -> (r: Document)
    ensures
        r@ == document_restored(d@),
{
    let ghost all = document_restored(d@).annotations;
    let mut annotations: Vec<AnnotationNode> = Vec::new();
    let mut i: usize = 0;
    while i < d.annotations.len()
        invariant
            i <= d.annotations@.len(),
            all == document_restored(d@).annotations,
            crate::editor::document::node_views(annotations@) == all.take(i as int),
        decreases d.annotations@.len() - i,
    {
        let n = restore_node(&d.annotations[i]);
        let ghost before = crate::editor::document::node_views(annotations@);
        annotations.push(n);
        assert(all[i as int] == n@);
        assert(crate::editor::document::node_views(annotations@) =~= before.push(all[i as int]));
        assert(all.take(i + 1) =~= all.take(i as int).push(all[i as int]));
        i += 1;
    }
    assert(all.take(i as int) =~= all);
    Document {
        schema_version: d.schema_version,
        id: d.id,
        base_png: copy_bytes(&d.base_png),
        base_width: d.base_width,
        base_height: d.base_height,
        cursor: copy_cursor(&d.cursor),
        annotations,
        metadata: d.metadata.clone(),
        edge_effect: d.edge_effect,
        border: d.border,
    }
}

/// Writes a document, with all its fields.
pub fn record(d: &Document) -> (r: DocumentRecord)
    ensures
        r@ == document_recorded(d@),
{
    let ghost all = document_recorded(d@).annotations;
    let mut annotations: Vec<NodeRecord> = Vec::new();
    let mut i: usize = 0;
    while i < d.annotations.len()
        invariant
            i <= d.annotations@.len(),
            all == document_recorded(d@).annotations,
            record_views(annotations@) == all.take(i as int),
        decreases d.annotations@.len() - i,
    {
        let r = record_node(&d.annotations[i]);
        let ghost before = record_views(annotations@);
        annotations.push(r);
        assert(all[i as int] == r@);
        assert(record_views(annotations@) =~= before.push(all[i as int]));
        assert(all.take(i + 1) =~= all.take(i as int).push(all[i as int]));
        i += 1;
    }
    assert(all.take(i as int) =~= all);
    DocumentRecord {
        schema_version: d.schema_version,
        id: d.id,
        base_png: copy_bytes(&d.base_png),
        base_width: d.base_width,
        base_height: d.base_height,
        cursor: copy_cursor(&d.cursor),
        annotations,
        metadata: d.metadata.clone(),
        edge_effect: d.edge_effect,
        border: d.border,
    }
}

// ---------------------------------------------------------------------------
// Laws
// ---------------------------------------------------------------------------

/// Reading gives back what was written, in every field of every annotation, whatever
/// version the document carries.
pub proof fn law_reading_gives_back_what_was_written(d: DocumentView)
    ensures
        document_restored(document_recorded(d)) == d,
{
    let back = document_restored(document_recorded(d));
    assert forall|i: int| 0 <= i < d.annotations.len() implies back.annotations[i]
        == #[trigger] d.annotations[i] by {
        let n = d.annotations[i];
        assert(restored(recorded(n)) == n);
    }
    assert(back.annotations =~= d.annotations);
}

/// What is read back of the document of a capture, once it was written: the present
/// version, no annotations and no effects, what was noted at the capture, the picture
/// without the cursor, and the cursor on a layer of its own, at its place and in its
/// size, if there was one. `saved` is what `save_from_capture` gave.
pub proof fn law_saved_captures_read_back(
    result: crate::capture::CaptureResult,
    id: NodeId,
    saved: Result<Document, crate::editor::document::EncodeFault>,
)
    requires
        saved is Ok,
        crate::editor::document::outcome_view(saved) == crate::editor::document::document_of(
            result,
            id,
        ),
        crate::editor::document::is_ordinary_capture(&result)
            ==> crate::editor::document::holds_capture(saved->Ok_0@, &result),
    ensures
        ({
            let d = document_restored(document_recorded(saved->Ok_0@));
            &&& d.schema_version == crate::editor::document::DOCUMENT_SCHEMA_VERSION
            &&& d.id == id
            &&& d.annotations == Seq::<NodeView>::empty()
            &&& d.edge_effect is None
            &&& d.border is None
            &&& d.metadata == result.metadata@
            &&& (d.base_width, d.base_height) == (result.base.width, result.base.height)
            &&& d.cursor is Some <==> result.cursor is Some
            &&& result.cursor matches Some(c) ==> {
                let s = d.cursor->Some_0;
                &&& (s.x, s.y) == (c.x, c.y)
                &&& (s.width, s.height) == (c.image.width, c.image.height)
            }
            &&& crate::editor::document::is_ordinary_capture(&result)
                ==> crate::editor::document::holds_capture(d, &result)
        }),
{
    law_reading_gives_back_what_was_written(saved->Ok_0@);
}

/// An arrow from a file without the later fields is solid, has a filled head and no
/// shadow. A text box is aligned left, is no list, and has neither a shadow nor a
/// blurred ground. What the file does say is kept.
pub proof fn law_old_files_look_as_they_did(r: NodeRecordView)
    ensures
        r matches NodeRecordView::Arrow {
            id,
            start,
            end,
            color,
            thickness,
            shadow,
            line_style,
            head_style,
            control,
        } ==> (shadow is None && line_style is None && head_style is None ==> restored(r)
            == (NodeView::Arrow {
            id,
            start,
            end,
            color,
            thickness,
            shadow: false,
            line_style: ArrowLineStyle::Solid,
            head_style: ArrowHeadStyle::FilledTriangle,
            control,
        })),
        r matches NodeRecordView::Text {
            id,
            rect,
            text,
            color,
            size_px,
            frosted,
            shadow,
            align,
            list,
        } ==> (frosted is None && shadow is None && align is None && list is None ==> restored(r)
            == (NodeView::Text {
            id,
            rect,
            text,
            color,
            size_px,
            frosted: false,
            shadow: false,
            align: TextAlign::Left,
            list: TextListStyle::Plain,
        })),
{
}

} // verus!
