//! The inspector: the properties of the selected annotation and of the whole
//! document, and what changing one of them does.
use vstd::prelude::*;
use crate::editor::commands::{Command, CommandView, SetBorder, SetEdgeEffect, UpdateAnnotation};
use crate::editor::document::{
    AnnotationNode, ArrowHeadStyle, Border, EdgeEffect, NodeId, NodeView,
};
use crate::editor::session::{Session, SessionView};
use crate::editor::style::{
    align_from_label, arrow_line_label, fill_switched, head_from_label, head_label,
    hex_to_color, line_from_label, list_from_label, list_label, text_align_label,
};
use crate::px::{
    Px, Rgba, BITS_0, BITS_1, BITS_120, BITS_20, BITS_200, BITS_32, BITS_4, BITS_6, BITS_60, BITS_8,
    BITS_80, BITS_HALF,
};

verus! {

// ---------------------------------------------------------------------------
// Properties of an annotation
// ---------------------------------------------------------------------------

/// A property of an annotation that can be changed.
#[derive(Debug, Clone, Copy, PartialEq, Eq, Structural)]
pub enum Field {
    ArrowColor,
    ArrowThickness,
    ArrowShadow,
    ArrowLine,
    ArrowHead,
    TextColor,
    TextSize,
    TextFrosted,
    TextShadow,
    TextAlignment,
    TextList,
    ShapeStroke,
    ShapeStrokeWidth,
    ShapeFill,
    ShapeFilled,
    StepFill,
    StepText,
    StepRadius,
    StepNumber,
    BlurRadius,
    MagnifyCircular,
    MagnifyBorder,
    MagnifyBorderWidth,
    CalloutFill,
    CalloutStroke,
    CalloutText,
}

impl Field {
    pub open spec fn text(self) -> Seq<char> {
        match self {
            Field::ArrowColor => "Color"@,
            Field::ArrowThickness => "Thickness"@,
            Field::ArrowShadow => "Drop shadow"@,
            Field::ArrowLine => "Line"@,
            Field::ArrowHead => "Head"@,
            Field::TextColor => "Color"@,
            Field::TextSize => "Size"@,
            Field::TextFrosted => "Frosted"@,
            Field::TextShadow => "Drop shadow"@,
            Field::TextAlignment => "Align"@,
            Field::TextList => "List"@,
            Field::ShapeStroke => "Stroke"@,
            Field::ShapeStrokeWidth => "Stroke width"@,
            Field::ShapeFill => "Fill"@,
            Field::ShapeFilled => "Filled"@,
            Field::StepFill => "Fill"@,
            Field::StepText => "Text"@,
            Field::StepRadius => "Radius"@,
            Field::StepNumber => "Number"@,
            Field::BlurRadius => "Radius (sigma)"@,
            Field::MagnifyCircular => "Circular"@,
            Field::MagnifyBorder => "Border"@,
            Field::MagnifyBorderWidth => "Border width"@,
            Field::CalloutFill => "Fill"@,
            Field::CalloutStroke => "Stroke"@,
            Field::CalloutText => "Text"@,
        }
    }

    /// The label of the property.
    pub fn label(self) -> (r: &'static str)
        ensures
            r@ == self.text(),
    {
        match self {
            Field::ArrowColor => "Color",
            Field::ArrowThickness => "Thickness",
            Field::ArrowShadow => "Drop shadow",
            Field::ArrowLine => "Line",
            Field::ArrowHead => "Head",
            Field::TextColor => "Color",
            Field::TextSize => "Size",
            Field::TextFrosted => "Frosted",
            Field::TextShadow => "Drop shadow",
            Field::TextAlignment => "Align",
            Field::TextList => "List",
            Field::ShapeStroke => "Stroke",
            Field::ShapeStrokeWidth => "Stroke width",
            Field::ShapeFill => "Fill",
            Field::ShapeFilled => "Filled",
            Field::StepFill => "Fill",
            Field::StepText => "Text",
            Field::StepRadius => "Radius",
            Field::StepNumber => "Number",
            Field::BlurRadius => "Radius (sigma)",
            Field::MagnifyCircular => "Circular",
            Field::MagnifyBorder => "Border",
            Field::MagnifyBorderWidth => "Border width",
            Field::CalloutFill => "Fill",
            Field::CalloutStroke => "Stroke",
            Field::CalloutText => "Text",
        }
    }
}

/// The properties of an annotation, in the order of the rows. A stamp and a
/// banner have none.
pub open spec fn fields_of(n: NodeView) -> Seq<Field> {
    match n {
        NodeView::Arrow { .. } => seq![
            Field::ArrowColor, Field::ArrowThickness, Field::ArrowShadow, Field::ArrowLine,
            Field::ArrowHead,
        ],
        NodeView::Text { .. } => seq![
            Field::TextColor, Field::TextSize, Field::TextFrosted, Field::TextShadow,
            Field::TextAlignment, Field::TextList,
        ],
        NodeView::Shape { .. } => seq![
            Field::ShapeStroke, Field::ShapeStrokeWidth, Field::ShapeFill, Field::ShapeFilled,
        ],
        NodeView::Step { .. } => seq![
            Field::StepFill, Field::StepText, Field::StepRadius, Field::StepNumber,
        ],
        NodeView::Blur { .. } => seq![Field::BlurRadius],
        NodeView::Magnify { .. } => seq![
            Field::MagnifyCircular, Field::MagnifyBorder, Field::MagnifyBorderWidth,
        ],
        NodeView::Callout { .. } => seq![
            Field::CalloutFill, Field::CalloutStroke, Field::CalloutText,
        ],
        NodeView::Stamp { .. } | NodeView::CaptureInfo { .. } => Seq::empty(),
    }
}

/// The properties of an annotation.
pub fn selection_properties(node: &AnnotationNode) -> (r: Vec<Field>)
    ensures
        r@ == fields_of(node@),
{
    let mut out: Vec<Field> = Vec::new();
    match node {
        AnnotationNode::Arrow { .. } => {
            out.push(Field::ArrowColor);
            out.push(Field::ArrowThickness);
            out.push(Field::ArrowShadow);
            out.push(Field::ArrowLine);
            out.push(Field::ArrowHead);
        },
        AnnotationNode::Text { .. } => {
            out.push(Field::TextColor);
            out.push(Field::TextSize);
            out.push(Field::TextFrosted);
            out.push(Field::TextShadow);
            out.push(Field::TextAlignment);
            out.push(Field::TextList);
        },
        AnnotationNode::Shape { .. } => {
            out.push(Field::ShapeStroke);
            out.push(Field::ShapeStrokeWidth);
            out.push(Field::ShapeFill);
            out.push(Field::ShapeFilled);
        },
        AnnotationNode::Step { .. } => {
            out.push(Field::StepFill);
            out.push(Field::StepText);
            out.push(Field::StepRadius);
            out.push(Field::StepNumber);
        },
        AnnotationNode::Blur { .. } => {
            out.push(Field::BlurRadius);
        },
        AnnotationNode::Magnify { .. } => {
            out.push(Field::MagnifyCircular);
            out.push(Field::MagnifyBorder);
            out.push(Field::MagnifyBorderWidth);
        },
        AnnotationNode::Callout { .. } => {
            out.push(Field::CalloutFill);
            out.push(Field::CalloutStroke);
            out.push(Field::CalloutText);
        },
        AnnotationNode::Stamp { .. } | AnnotationNode::CaptureInfo { .. } => {},
    }
    assert(out@ =~= fields_of(node@));
    out
}

/// The value of a property.
#[allow(inconsistent_fields)]
#[derive(Debug)]
pub enum FieldValue {
    Color(Rgba),
    /// A number with its limits and the step of the field's arrows.
    Number { value: Px, min: Px, max: Px, step: Px },
    Integer { value: u32, min: u32, max: u32 },
    Flag(bool),
    /// One of a list of texts.
    Choice(&'static str),
}

/// The value of a property as plain values.
#[allow(inconsistent_fields)]
pub enum FieldValueView {
    Color(Rgba),
    Number { value: Px, min: Px, max: Px, step: Px },
    Integer { value: u32, min: u32, max: u32 },
    Flag(bool),
    Choice(Seq<char>),
}

impl View for FieldValue {
    type V = FieldValueView;

    open spec fn view(&self) -> FieldValueView {
        match *self {
            FieldValue::Color(c) => FieldValueView::Color(c),
            FieldValue::Number { value, min, max, step } => FieldValueView::Number {
                value,
                min,
                max,
                step,
            },
            FieldValue::Integer { value, min, max } => FieldValueView::Integer { value, min, max },
            FieldValue::Flag(b) => FieldValueView::Flag(b),
            FieldValue::Choice(t) => FieldValueView::Choice(t@),
        }
    }
}

/// The texts that a property offers for choosing, in the order of the list. A property
/// that is no choice offers none.
pub open spec fn offered(f: Field) -> Seq<Seq<char>> {
    match f {
        Field::ArrowLine => seq!["Solid"@, "Dashed"@, "Dotted"@],
        Field::ArrowHead => seq!["Filled"@, "Outline"@, "Line"@, "None"@, "Double"@],
        Field::TextAlignment => seq!["Left"@, "Center"@, "Right"@],
        Field::TextList => seq!["None"@, "Bullet"@, "Numbered"@],
        _ => Seq::empty(),
    }
}

/// The texts that a property offers for choosing.
pub fn options_of(f: Field) -> (r: Vec<&'static str>)
    ensures
        r@.len() == offered(f).len(),
        forall|i: int| 0 <= i < r@.len() ==> (#[trigger] r@[i])@ == offered(f)[i],
{
    match f {
        Field::ArrowLine => vec!["Solid", "Dashed", "Dotted"],
        Field::ArrowHead => vec!["Filled", "Outline", "Line", "None", "Double"],
        Field::TextAlignment => vec!["Left", "Center", "Right"],
        Field::TextList => vec!["None", "Bullet", "Numbered"],
        _ => Vec::new(),
    }
}

/// The value that a property of an annotation has.
pub open spec fn value_of(n: NodeView, f: Field) -> Option<FieldValueView> {
    match (n, f) {
        (NodeView::Arrow { color, .. }, Field::ArrowColor) => Some(
            FieldValueView::Color(color),
        ),
        (NodeView::Arrow { thickness, .. }, Field::ArrowThickness) => Some(
            FieldValueView::Number {
                value: thickness,
                min: Px { bits: BITS_1 },
                max: Px { bits: BITS_32 },
                step: Px { bits: BITS_HALF },
            },
        ),
        (NodeView::Arrow { shadow, .. }, Field::ArrowShadow) => Some(
            FieldValueView::Flag(shadow),
        ),
        (NodeView::Arrow { line_style, .. }, Field::ArrowLine) => Some(
            FieldValueView::Choice(crate::editor::style::line_text(line_style)),
        ),
        (NodeView::Arrow { head_style, .. }, Field::ArrowHead) => Some(
            FieldValueView::Choice(crate::editor::style::head_text(head_style)),
        ),
        (NodeView::Text { color, .. }, Field::TextColor) => Some(
            FieldValueView::Color(color),
        ),
        (NodeView::Text { size_px, .. }, Field::TextSize) => Some(
            FieldValueView::Number {
                value: size_px,
                min: Px { bits: BITS_8 },
                max: Px { bits: BITS_200 },
                step: Px { bits: BITS_1 },
            },
        ),
        (NodeView::Text { frosted, .. }, Field::TextFrosted) => Some(
            FieldValueView::Flag(frosted),
        ),
        (NodeView::Text { shadow, .. }, Field::TextShadow) => Some(
            FieldValueView::Flag(shadow),
        ),
        (NodeView::Text { align, .. }, Field::TextAlignment) => Some(
            FieldValueView::Choice(crate::editor::style::align_text(align)),
        ),
        (NodeView::Text { list, .. }, Field::TextList) => Some(
            FieldValueView::Choice(crate::editor::style::list_text(list)),
        ),
        (NodeView::Shape { stroke, .. }, Field::ShapeStroke) => Some(
            FieldValueView::Color(stroke),
        ),
        (NodeView::Shape { stroke_width, .. }, Field::ShapeStrokeWidth) => Some(
            FieldValueView::Number {
                value: stroke_width,
                min: Px { bits: BITS_HALF },
                max: Px { bits: BITS_32 },
                step: Px { bits: BITS_HALF },
            },
        ),
        (NodeView::Shape { fill, .. }, Field::ShapeFill) => Some(
            FieldValueView::Color(fill),
        ),
        (NodeView::Shape { fill, .. }, Field::ShapeFilled) => Some(
            FieldValueView::Flag(fill.a != 0),
        ),
        (NodeView::Step { fill, .. }, Field::StepFill) => Some(
            FieldValueView::Color(fill),
        ),
        (NodeView::Step { text_color, .. }, Field::StepText) => Some(
            FieldValueView::Color(text_color),
        ),
        (NodeView::Step { radius, .. }, Field::StepRadius) => Some(
            FieldValueView::Number {
                value: radius,
                min: Px { bits: BITS_6 },
                max: Px { bits: BITS_80 },
                step: Px { bits: BITS_1 },
            },
        ),
        (NodeView::Step { number, .. }, Field::StepNumber) => Some(
            FieldValueView::Integer { value: number, min: 1, max: 999 },
        ),
        (NodeView::Blur { radius_px, .. }, Field::BlurRadius) => Some(
            FieldValueView::Number {
                value: radius_px,
                min: Px { bits: BITS_1 },
                max: Px { bits: BITS_60 },
                step: Px { bits: BITS_1 },
            },
        ),
        (NodeView::Magnify { circular, .. }, Field::MagnifyCircular) => Some(
            FieldValueView::Flag(circular),
        ),
        (NodeView::Magnify { border, .. }, Field::MagnifyBorder) => Some(
            FieldValueView::Color(border),
        ),
        (NodeView::Magnify { border_width, .. }, Field::MagnifyBorderWidth) => Some(
            FieldValueView::Number {
                value: border_width,
                min: Px { bits: BITS_0 },
                max: Px { bits: BITS_20 },
                step: Px { bits: BITS_HALF },
            },
        ),
        (NodeView::Callout { fill, .. }, Field::CalloutFill) => Some(
            FieldValueView::Color(fill),
        ),
        (NodeView::Callout { stroke, .. }, Field::CalloutStroke) => Some(
            FieldValueView::Color(stroke),
        ),
        (NodeView::Callout { text_color, .. }, Field::CalloutText) => Some(
            FieldValueView::Color(text_color),
        ),
        _ => None,
    }
}

/// The view of an optional value.
pub open spec fn shown(v: Option<FieldValue>) -> Option<FieldValueView> {
    match v {
        Some(v) => Some(v@),
        None => None,
    }
}

/// The value that a property of an annotation has; none if it is a property of
/// another kind of annotation.
pub fn field_value(node: &AnnotationNode, f: Field) -> (r: Option<FieldValue>)
    ensures
        shown(r) == value_of(node@, f),
{
    match (node, f) {
        (AnnotationNode::Arrow { color, .. }, Field::ArrowColor) => Some(
            FieldValue::Color(*color),
        ),
        (AnnotationNode::Arrow { thickness, .. }, Field::ArrowThickness) => Some(
            FieldValue::Number {
                value: *thickness,
                min: Px { bits: BITS_1 },
                max: Px { bits: BITS_32 },
                step: Px { bits: BITS_HALF },
            },
        ),
        (AnnotationNode::Arrow { shadow, .. }, Field::ArrowShadow) => Some(
            FieldValue::Flag(*shadow),
        ),
        (AnnotationNode::Arrow { line_style, .. }, Field::ArrowLine) => Some(
            FieldValue::Choice(arrow_line_label(*line_style)),
        ),
        (AnnotationNode::Arrow { head_style, .. }, Field::ArrowHead) => Some(
            FieldValue::Choice(head_label(*head_style)),
        ),
        (AnnotationNode::Text { color, .. }, Field::TextColor) => Some(
            FieldValue::Color(*color),
        ),
        (AnnotationNode::Text { size_px, .. }, Field::TextSize) => Some(
            FieldValue::Number {
                value: *size_px,
                min: Px { bits: BITS_8 },
                max: Px { bits: BITS_200 },
                step: Px { bits: BITS_1 },
            },
        ),
        (AnnotationNode::Text { frosted, .. }, Field::TextFrosted) => Some(
            FieldValue::Flag(*frosted),
        ),
        (AnnotationNode::Text { shadow, .. }, Field::TextShadow) => Some(
            FieldValue::Flag(*shadow),
        ),
        (AnnotationNode::Text { align, .. }, Field::TextAlignment) => Some(
            FieldValue::Choice(text_align_label(*align)),
        ),
        (AnnotationNode::Text { list, .. }, Field::TextList) => Some(
            FieldValue::Choice(list_label(*list)),
        ),
        (AnnotationNode::Shape { stroke, .. }, Field::ShapeStroke) => Some(
            FieldValue::Color(*stroke),
        ),
        (AnnotationNode::Shape { stroke_width, .. }, Field::ShapeStrokeWidth) => Some(
            FieldValue::Number {
                value: *stroke_width,
                min: Px { bits: BITS_HALF },
                max: Px { bits: BITS_32 },
                step: Px { bits: BITS_HALF },
            },
        ),
        (AnnotationNode::Shape { fill, .. }, Field::ShapeFill) => Some(
            FieldValue::Color(*fill),
        ),
        (AnnotationNode::Shape { fill, .. }, Field::ShapeFilled) => Some(
            FieldValue::Flag(fill.a != 0),
        ),
        (AnnotationNode::Step { fill, .. }, Field::StepFill) => Some(
            FieldValue::Color(*fill),
        ),
        (AnnotationNode::Step { text_color, .. }, Field::StepText) => Some(
            FieldValue::Color(*text_color),
        ),
        (AnnotationNode::Step { radius, .. }, Field::StepRadius) => Some(
            FieldValue::Number {
                value: *radius,
                min: Px { bits: BITS_6 },
                max: Px { bits: BITS_80 },
                step: Px { bits: BITS_1 },
            },
        ),
        (AnnotationNode::Step { number, .. }, Field::StepNumber) => Some(
            FieldValue::Integer { value: *number, min: 1, max: 999 },
        ),
        (AnnotationNode::Blur { radius_px, .. }, Field::BlurRadius) => Some(
            FieldValue::Number {
                value: *radius_px,
                min: Px { bits: BITS_1 },
                max: Px { bits: BITS_60 },
                step: Px { bits: BITS_1 },
            },
        ),
        (AnnotationNode::Magnify { circular, .. }, Field::MagnifyCircular) => Some(
            FieldValue::Flag(*circular),
        ),
        (AnnotationNode::Magnify { border, .. }, Field::MagnifyBorder) => Some(
            FieldValue::Color(*border),
        ),
        (AnnotationNode::Magnify { border_width, .. }, Field::MagnifyBorderWidth) => Some(
            FieldValue::Number {
                value: *border_width,
                min: Px { bits: BITS_0 },
                max: Px { bits: BITS_20 },
                step: Px { bits: BITS_HALF },
            },
        ),
        (AnnotationNode::Callout { fill, .. }, Field::CalloutFill) => Some(
            FieldValue::Color(*fill),
        ),
        (AnnotationNode::Callout { stroke, .. }, Field::CalloutStroke) => Some(
            FieldValue::Color(*stroke),
        ),
        (AnnotationNode::Callout { text_color, .. }, Field::CalloutText) => Some(
            FieldValue::Color(*text_color),
        ),
        _ => None,
    }
}

/// A change of a property.
#[derive(Debug)]
pub enum FieldEdit {
    Color(Rgba),
    Number(Px),
    Integer(u32),
    Flag(bool),
    Choice(String),
}

/// The annotation after a change. A number is held within the limits of its
/// field; the colour of a fill keeps the alpha, and the switch of a fill keeps
/// the colour. A change that does not fit the annotation changes nothing.
pub open spec fn edited(n: NodeView, f: Field, e: FieldEdit) -> NodeView {
    match (n, f, e) {
        (
            NodeView::Arrow {
                id, start, end, color: _, thickness, shadow, line_style, head_style, control,
            },
            Field::ArrowColor,
            FieldEdit::Color(v),
        ) =>
        NodeView::Arrow {
            id, start, end, color: v, thickness, shadow, line_style, head_style, control,
        },
        (
            NodeView::Arrow {
                id, start, end, color, thickness: _, shadow, line_style, head_style, control,
            },
            Field::ArrowThickness,
            FieldEdit::Number(v),
        ) =>
        NodeView::Arrow {
            id, start, end, color, thickness: v.within(Px { bits: BITS_1 }, Px { bits: BITS_32 }),
            shadow, line_style, head_style, control,
        },
        (
            NodeView::Arrow {
                id, start, end, color, thickness, shadow: _, line_style, head_style, control,
            },
            Field::ArrowShadow,
            FieldEdit::Flag(v),
        ) =>
        NodeView::Arrow {
            id, start, end, color, thickness, shadow: v, line_style, head_style, control,
        },
        (
            NodeView::Arrow {
                id, start, end, color, thickness, shadow, line_style: _, head_style, control,
            },
            Field::ArrowLine,
            FieldEdit::Choice(v),
        ) =>
        NodeView::Arrow {
            id, start, end, color, thickness, shadow,
            line_style: crate::editor::style::line_named(v@), head_style, control,
        },
        (
            NodeView::Arrow {
                id, start, end, color, thickness, shadow, line_style, head_style: _, control,
            },
            Field::ArrowHead,
            FieldEdit::Choice(v),
        ) =>
        NodeView::Arrow {
            id, start, end, color, thickness, shadow, line_style,
            head_style: crate::editor::style::head_or_filled(v@), control,
        },
        (
            NodeView::Text { id, rect, text, color: _, size_px, frosted, shadow, align, list },
            Field::TextColor, FieldEdit::Color(v),
        ) =>
        NodeView::Text { id, rect, text, color: v, size_px, frosted, shadow, align, list },
        (
            NodeView::Text { id, rect, text, color, size_px: _, frosted, shadow, align, list },
            Field::TextSize, FieldEdit::Number(v),
        ) =>
        NodeView::Text {
            id, rect, text, color, size_px: v.within(Px { bits: BITS_8 }, Px { bits: BITS_200 }),
            frosted, shadow, align, list,
        },
        (
            NodeView::Text { id, rect, text, color, size_px, frosted: _, shadow, align, list },
            Field::TextFrosted, FieldEdit::Flag(v),
        ) =>
        NodeView::Text { id, rect, text, color, size_px, frosted: v, shadow, align, list },
        (
            NodeView::Text { id, rect, text, color, size_px, frosted, shadow: _, align, list },
            Field::TextShadow, FieldEdit::Flag(v),
        ) =>
        NodeView::Text { id, rect, text, color, size_px, frosted, shadow: v, align, list },
        (
            NodeView::Text { id, rect, text, color, size_px, frosted, shadow, align: _, list },
            Field::TextAlignment, FieldEdit::Choice(v),
        ) =>
        NodeView::Text {
            id, rect, text, color, size_px, frosted, shadow,
            align: crate::editor::style::align_named(v@), list,
        },
        (
            NodeView::Text { id, rect, text, color, size_px, frosted, shadow, align, list: _ },
            Field::TextList, FieldEdit::Choice(v),
        ) =>
        NodeView::Text {
            id, rect, text, color, size_px, frosted, shadow, align,
            list: crate::editor::style::list_named(v@),
        },
        (
            NodeView::Shape { id, shape, rect, stroke: _, stroke_width, fill }, Field::ShapeStroke,
            FieldEdit::Color(v),
        ) =>
        NodeView::Shape { id, shape, rect, stroke: v, stroke_width, fill },
        (
            NodeView::Shape { id, shape, rect, stroke, stroke_width: _, fill },
            Field::ShapeStrokeWidth, FieldEdit::Number(v),
        ) =>
        NodeView::Shape {
            id, shape, rect, stroke,
            stroke_width: v.within(Px { bits: BITS_HALF }, Px { bits: BITS_32 }), fill,
        },
        (
            NodeView::Shape { id, shape, rect, stroke, stroke_width, fill }, Field::ShapeFill,
            FieldEdit::Color(v),
        ) =>
        NodeView::Shape { id, shape, rect, stroke, stroke_width, fill: Rgba { a: fill.a, ..v } },
        (
            NodeView::Shape { id, shape, rect, stroke, stroke_width, fill }, Field::ShapeFilled,
            FieldEdit::Flag(v),
        ) =>
        NodeView::Shape {
            id, shape, rect, stroke, stroke_width, fill: crate::editor::style::filled(fill, v),
        },
        (
            NodeView::Step { id, center, radius, number, fill: _, text_color }, Field::StepFill,
            FieldEdit::Color(v),
        ) =>
        NodeView::Step { id, center, radius, number, fill: v, text_color },
        (
            NodeView::Step { id, center, radius, number, fill, text_color: _ }, Field::StepText,
            FieldEdit::Color(v),
        ) =>
        NodeView::Step { id, center, radius, number, fill, text_color: v },
        (
            NodeView::Step { id, center, radius: _, number, fill, text_color }, Field::StepRadius,
            FieldEdit::Number(v),
        ) =>
        NodeView::Step {
            id, center, radius: v.within(Px { bits: BITS_6 }, Px { bits: BITS_80 }), number, fill,
            text_color,
        },
        (
            NodeView::Step { id, center, radius, number: _, fill, text_color }, Field::StepNumber,
            FieldEdit::Integer(v),
        ) =>
        NodeView::Step {
            id, center, radius, number: crate::settings::ui::bounded(v as int, 1, 999) as u32,
            fill, text_color,
        },
        (NodeView::Blur { id, rect, radius_px: _ }, Field::BlurRadius, FieldEdit::Number(v)) =>
        NodeView::Blur { id, rect, radius_px: v.within(Px { bits: BITS_1 }, Px { bits: BITS_60 }) },
        (
            NodeView::Magnify { id, source_rect, target_rect, border, border_width, circular: _ },
            Field::MagnifyCircular, FieldEdit::Flag(v),
        ) =>
        NodeView::Magnify { id, source_rect, target_rect, border, border_width, circular: v },
        (
            NodeView::Magnify { id, source_rect, target_rect, border: _, border_width, circular },
            Field::MagnifyBorder, FieldEdit::Color(v),
        ) =>
        NodeView::Magnify { id, source_rect, target_rect, border: v, border_width, circular },
        (
            NodeView::Magnify { id, source_rect, target_rect, border, border_width: _, circular },
            Field::MagnifyBorderWidth, FieldEdit::Number(v),
        ) =>
        NodeView::Magnify {
            id, source_rect, target_rect, border,
            border_width: v.within(Px { bits: BITS_0 }, Px { bits: BITS_20 }), circular,
        },
        (
            NodeView::Callout {
                id, rect, tail, text, fill: _, stroke, stroke_width, text_color, text_size,
            },
            Field::CalloutFill,
            FieldEdit::Color(v),
        ) =>
        NodeView::Callout {
            id, rect, tail, text, fill: v, stroke, stroke_width, text_color, text_size,
        },
        (
            NodeView::Callout {
                id, rect, tail, text, fill, stroke: _, stroke_width, text_color, text_size,
            },
            Field::CalloutStroke,
            FieldEdit::Color(v),
        ) =>
        NodeView::Callout {
            id, rect, tail, text, fill, stroke: v, stroke_width, text_color, text_size,
        },
        (
            NodeView::Callout {
                id, rect, tail, text, fill, stroke, stroke_width, text_color: _, text_size,
            },
            Field::CalloutText,
            FieldEdit::Color(v),
        ) =>
        NodeView::Callout {
            id, rect, tail, text, fill, stroke, stroke_width, text_color: v, text_size,
        },
        _ => n,
    }
}

/// The arrow head of a text, or a filled triangle.
fn head_choice(label: &str) -> (r: ArrowHeadStyle)
    ensures
        r == crate::editor::style::head_or_filled(label@),
{
    match head_from_label(label) {
        Some(h) => h,
        None => ArrowHeadStyle::FilledTriangle,
    }
}

/// Changes a property of an annotation.
pub fn edit_node(node: &AnnotationNode, f: Field, e: &FieldEdit) -> (r: AnnotationNode)
    ensures
        r@ == edited(node@, f, *e),
{
    let mut n = node.clone();
    match (&mut n, f, e) {
        (AnnotationNode::Arrow { color, .. }, Field::ArrowColor, FieldEdit::Color(v)) => {
            *color = *v;
        },
        (AnnotationNode::Arrow { thickness, .. }, Field::ArrowThickness, FieldEdit::Number(v)) => {
            *thickness = v.clamp(Px { bits: BITS_1 }, Px { bits: BITS_32 });
        },
        (AnnotationNode::Arrow { shadow, .. }, Field::ArrowShadow, FieldEdit::Flag(v)) => {
            *shadow = *v;
        },
        (AnnotationNode::Arrow { line_style, .. }, Field::ArrowLine, FieldEdit::Choice(v)) => {
            *line_style = line_from_label(v.as_str());
        },
        (AnnotationNode::Arrow { head_style, .. }, Field::ArrowHead, FieldEdit::Choice(v)) => {
            *head_style = head_choice(v.as_str());
        },
        (AnnotationNode::Text { color, .. }, Field::TextColor, FieldEdit::Color(v)) => {
            *color = *v;
        },
        (AnnotationNode::Text { size_px, .. }, Field::TextSize, FieldEdit::Number(v)) => {
            *size_px = v.clamp(Px { bits: BITS_8 }, Px { bits: BITS_200 });
        },
        (AnnotationNode::Text { frosted, .. }, Field::TextFrosted, FieldEdit::Flag(v)) => {
            *frosted = *v;
        },
        (AnnotationNode::Text { shadow, .. }, Field::TextShadow, FieldEdit::Flag(v)) => {
            *shadow = *v;
        },
        (AnnotationNode::Text { align, .. }, Field::TextAlignment, FieldEdit::Choice(v)) => {
            *align = align_from_label(v.as_str());
        },
        (AnnotationNode::Text { list, .. }, Field::TextList, FieldEdit::Choice(v)) => {
            *list = list_from_label(v.as_str());
        },
        (AnnotationNode::Shape { stroke, .. }, Field::ShapeStroke, FieldEdit::Color(v)) => {
            *stroke = *v;
        },
        (
            AnnotationNode::Shape { stroke_width, .. }, Field::ShapeStrokeWidth,
            FieldEdit::Number(v),
        ) => {
            *stroke_width = v.clamp(Px { bits: BITS_HALF }, Px { bits: BITS_32 });
        },
        (AnnotationNode::Shape { fill, .. }, Field::ShapeFill, FieldEdit::Color(v)) => {
            *fill = Rgba { r: v.r, g: v.g, b: v.b, a: fill.a };
        },
        (AnnotationNode::Shape { fill, .. }, Field::ShapeFilled, FieldEdit::Flag(v)) => {
            *fill = fill_switched(*fill, *v);
        },
        (AnnotationNode::Step { fill, .. }, Field::StepFill, FieldEdit::Color(v)) => {
            *fill = *v;
        },
        (AnnotationNode::Step { text_color, .. }, Field::StepText, FieldEdit::Color(v)) => {
            *text_color = *v;
        },
        (AnnotationNode::Step { radius, .. }, Field::StepRadius, FieldEdit::Number(v)) => {
            *radius = v.clamp(Px { bits: BITS_6 }, Px { bits: BITS_80 });
        },
        (AnnotationNode::Step { number, .. }, Field::StepNumber, FieldEdit::Integer(v)) => {
            *number = crate::settings::ui::bound(*v, 1, 999);
        },
        (AnnotationNode::Blur { radius_px, .. }, Field::BlurRadius, FieldEdit::Number(v)) => {
            *radius_px = v.clamp(Px { bits: BITS_1 }, Px { bits: BITS_60 });
        },
        (AnnotationNode::Magnify { circular, .. }, Field::MagnifyCircular, FieldEdit::Flag(v)) => {
            *circular = *v;
        },
        (AnnotationNode::Magnify { border, .. }, Field::MagnifyBorder, FieldEdit::Color(v)) => {
            *border = *v;
        },
        (
            AnnotationNode::Magnify { border_width, .. }, Field::MagnifyBorderWidth,
            FieldEdit::Number(v),
        ) => {
            *border_width = v.clamp(Px { bits: BITS_0 }, Px { bits: BITS_20 });
        },
        (AnnotationNode::Callout { fill, .. }, Field::CalloutFill, FieldEdit::Color(v)) => {
            *fill = *v;
        },
        (AnnotationNode::Callout { stroke, .. }, Field::CalloutStroke, FieldEdit::Color(v)) => {
            *stroke = *v;
        },
        (AnnotationNode::Callout { text_color, .. }, Field::CalloutText, FieldEdit::Color(v)) => {
            *text_color = *v;
        },
        _ => {},
    }
    n
}

/// A change of a property keeps the identity of the annotation and its kind, and
/// a field that is not one of its properties changes nothing.
pub proof fn law_edit_keeps_identity(n: NodeView, f: Field, e: FieldEdit)
    ensures
        edited(n, f, e).id() == n.id(),
        fields_of(edited(n, f, e)) == fields_of(n),
        value_of(n, f) is None ==> edited(n, f, e) == n,
{
}

/// The present choice of a property is among the texts that it offers.
pub proof fn law_choice_is_offered(n: NodeView, f: Field)
    ensures
        value_of(n, f) matches Some(FieldValueView::Choice(t)) ==> offered(f).contains(t),
{
    match value_of(n, f) {
        Some(FieldValueView::Choice(t)) => {
            let o = offered(f);
            if f == Field::ArrowHead {
                assert(t == o[0] || t == o[1] || t == o[2] || t == o[3] || t == o[4]);
            } else {
                assert(t == o[0] || t == o[1] || t == o[2]);
            }
        },
        _ => {},
    }
}

/// Choosing an offered text of a property that the annotation has is what the property
/// then shows.
pub proof fn law_offered_choice_is_shown(n: NodeView, f: Field, k: int, chosen: String)
    requires
        fields_of(n).contains(f),
        0 <= k < offered(f).len(),
        chosen@ == offered(f)[k],
    ensures
        value_of(edited(n, f, FieldEdit::Choice(chosen)), f) == Some(
            FieldValueView::Choice(offered(f)[k]),
        ),
{
    reveal_strlit("Solid");
    reveal_strlit("Dashed");
    reveal_strlit("Dotted");
    reveal_strlit("Filled");
    reveal_strlit("Outline");
    reveal_strlit("Line");
    reveal_strlit("None");
    reveal_strlit("Double");
    reveal_strlit("Left");
    reveal_strlit("Center");
    reveal_strlit("Right");
    reveal_strlit("Bullet");
    reveal_strlit("Numbered");
}

/// What a change shows afterwards: a flag is shown as it was set, and so are the
/// red, green and blue of a colour.
pub proof fn law_edit_is_shown(n: NodeView, f: Field, b: bool, c: Rgba)
    ensures
        value_of(n, f) matches Some(FieldValueView::Flag(_)) ==> value_of(
            edited(n, f, FieldEdit::Flag(b)),
            f,
        ) == Some(FieldValueView::Flag(b)),
        value_of(n, f) matches Some(FieldValueView::Color(old_c)) ==> (value_of(
            edited(n, f, FieldEdit::Color(c)),
            f,
        ) matches Some(FieldValueView::Color(new_c)) && new_c.r == c.r && new_c.g == c.g
            && new_c.b == c.b),
{
}

impl Session {
    /// Changes a property of the annotation with this identity, through the history.
    pub fn edit_property(&mut self, id: NodeId, f: Field, e: &FieldEdit)
        ensures
            final(self)@ == match crate::editor::session::node_with(old(self)@.document, id) {
                Some(n) => crate::editor::session::executed(
                    old(self)@,
                    crate::editor::session::changing(n, edited(n, f, *e)),
                ),
                None => old(self)@,
            },
    {
        let found = self.find_node(id);
        match found {
            Some(before) => {
                let after = edit_node(&before, f, e);
                self.execute_command(Command::Update(UpdateAnnotation::new(before, after)));
            },
            None => {},
        }
    }
}

/// What the heading of the selection says.
pub open spec fn kind_text(n: NodeView) -> Seq<char> {
    match n {
        NodeView::Arrow { .. } => "Arrow"@,
        NodeView::Text { .. } => "Text"@,
        NodeView::Shape { .. } => "Shape"@,
        NodeView::Step { .. } => "Step"@,
        NodeView::Magnify { .. } => "Magnifier"@,
        NodeView::Blur { .. } => "Blur"@,
        NodeView::Callout { .. } => "Callout"@,
        NodeView::Stamp { .. } => "Stamp"@,
        NodeView::CaptureInfo { .. } => "Capture info"@,
    }
}

/// The kind of an annotation, for the heading of the selection.
pub fn kind_label(node: &AnnotationNode) -> (r: &'static str)
    ensures
        r@ == kind_text(node@),
{
    match node {
        AnnotationNode::Arrow { .. } => "Arrow",
        AnnotationNode::Text { .. } => "Text",
        AnnotationNode::Shape { .. } => "Shape",
        AnnotationNode::Step { .. } => "Step",
        AnnotationNode::Magnify { .. } => "Magnifier",
        AnnotationNode::Blur { .. } => "Blur",
        AnnotationNode::Callout { .. } => "Callout",
        AnnotationNode::Stamp { .. } => "Stamp",
        AnnotationNode::CaptureInfo { .. } => "Capture info",
    }
}

/// The text of a text box or balloon, for the preview in the inspector; a note if
/// it is empty.
pub fn text_preview(node: &AnnotationNode) -> (r: Option<String>)
    ensures
        crate::text::optional_text(r) == match node@ {
            NodeView::Text { text, .. } => Some(
                if text.len() == 0 {
                    "(empty)"@
                } else {
                    text
                },
            ),
            NodeView::Callout { text, .. } => Some(
                if text.len() == 0 {
                    "(empty)"@
                } else {
                    text
                },
            ),
            _ => None,
        },
{
    match node {
        AnnotationNode::Text { text, .. } => Some(preview(text)),
        AnnotationNode::Callout { text, .. } => Some(preview(text)),
        _ => None,
    }
}

fn preview(text: &String) -> (r: String)
    ensures
        r@ == (if text@.len() == 0 {
            "(empty)"@
        } else {
            text@
        }),
{
    if crate::text::to_chars(text.as_str()).len() == 0 {
        "(empty)".to_owned()
    } else {
        text.clone()
    }
}

// ---------------------------------------------------------------------------
// Effects of the document
// ---------------------------------------------------------------------------

/// A change of the torn edge.
#[derive(Debug, Clone, Copy, PartialEq, Eq, Structural)]
pub enum EdgeEdit {
    Top(bool),
    Bottom(bool),
    Left(bool),
    Right(bool),
    Depth(Px),
    Teeth(Px),
}

/// The torn edge after a change: the depth is held between 1 and 120, the teeth
/// between 4 and 120.
pub open spec fn edge_edited(x: EdgeEffect, e: EdgeEdit) -> EdgeEffect {
    match e {
        EdgeEdit::Top(b) => EdgeEffect { top: b, ..x },
        EdgeEdit::Bottom(b) => EdgeEffect { bottom: b, ..x },
        EdgeEdit::Left(b) => EdgeEffect { left: b, ..x },
        EdgeEdit::Right(b) => EdgeEffect { right: b, ..x },
        EdgeEdit::Depth(v) => EdgeEffect {
            depth: v.within(Px { bits: BITS_1 }, Px { bits: BITS_120 }),
            ..x
        },
        EdgeEdit::Teeth(v) => EdgeEffect {
            teeth: v.within(Px { bits: BITS_4 }, Px { bits: BITS_120 }),
            ..x
        },
    }
}

/// Changes the torn edge.
pub fn edit_edge(x: EdgeEffect, e: EdgeEdit) -> (r: EdgeEffect)
    ensures
        r == edge_edited(x, e),
{
    match e {
        EdgeEdit::Top(b) => EdgeEffect { top: b, ..x },
        EdgeEdit::Bottom(b) => EdgeEffect { bottom: b, ..x },
        EdgeEdit::Left(b) => EdgeEffect { left: b, ..x },
        EdgeEdit::Right(b) => EdgeEffect { right: b, ..x },
        EdgeEdit::Depth(v) => EdgeEffect {
            depth: v.clamp(Px { bits: BITS_1 }, Px { bits: BITS_120 }),
            ..x
        },
        EdgeEdit::Teeth(v) => EdgeEffect {
            teeth: v.clamp(Px { bits: BITS_4 }, Px { bits: BITS_120 }),
            ..x
        },
    }
}

/// Which edges the check boxes show as torn: top, bottom, left and right.
pub fn edges_shown(x: EdgeEffect) -> (r: (bool, bool, bool, bool))
    ensures
        r.0 == x.tears(crate::editor::document::Edge::Top),
        r.1 == x.tears(crate::editor::document::Edge::Bottom),
        r.2 == x.tears(crate::editor::document::Edge::Left),
        r.3 == x.tears(crate::editor::document::Edge::Right),
{
    if x.top || x.bottom || x.left || x.right {
        (x.top, x.bottom, x.left, x.right)
    } else {
        (
            x.edge == crate::editor::document::Edge::Top,
            x.edge == crate::editor::document::Edge::Bottom,
            x.edge == crate::editor::document::Edge::Left,
            x.edge == crate::editor::document::Edge::Right,
        )
    }
}

/// A change of the border. Colours come as `#rrggbb`.
#[derive(Debug)]
pub enum BorderEdit {
    Width(Px),
    Color(String),
    MatteWidth(Px),
    MatteColor(String),
    ShadowRadius(Px),
}

/// The border after a change, or nothing if a colour cannot be read. Widths are
/// held between 0 and 120, the radius of the shadow between 0 and 60; a colour
/// keeps its alpha.
pub open spec fn border_edited(x: Border, e: BorderEdit) -> Option<Border> {
    match e {
        BorderEdit::Width(v) => Some(
            Border { width: v.within(Px { bits: BITS_0 }, Px { bits: BITS_120 }), ..x },
        ),
        BorderEdit::Color(t) => match crate::editor::style::color_of(t@, x.color.a) {
            Some(c) => Some(Border { color: c, ..x }),
            None => None,
        },
        BorderEdit::MatteWidth(v) => Some(
            Border { matte_width: v.within(Px { bits: BITS_0 }, Px { bits: BITS_120 }), ..x },
        ),
        BorderEdit::MatteColor(t) => match crate::editor::style::color_of(t@, x.matte_color.a) {
            Some(c) => Some(Border { matte_color: c, ..x }),
            None => None,
        },
        BorderEdit::ShadowRadius(v) => Some(
            Border { shadow_radius: v.within(Px { bits: BITS_0 }, Px { bits: BITS_60 }), ..x },
        ),
    }
}

/// Changes the border.
pub fn edit_border(x: Border, e: &BorderEdit) -> (r: Option<Border>)
    ensures
        r == border_edited(x, *e),
{
    match e {
        BorderEdit::Width(v) => Some(
            Border { width: v.clamp(Px { bits: BITS_0 }, Px { bits: BITS_120 }), ..x },
        ),
        BorderEdit::Color(t) => match hex_to_color(t.as_str(), x.color.a) {
            Some(c) => Some(Border { color: c, ..x }),
            None => None,
        },
        BorderEdit::MatteWidth(v) => Some(
            Border { matte_width: v.clamp(Px { bits: BITS_0 }, Px { bits: BITS_120 }), ..x },
        ),
        BorderEdit::MatteColor(t) => match hex_to_color(t.as_str(), x.matte_color.a) {
            Some(c) => Some(Border { matte_color: c, ..x }),
            None => None,
        },
        BorderEdit::ShadowRadius(v) => Some(
            Border { shadow_radius: v.clamp(Px { bits: BITS_0 }, Px { bits: BITS_60 }), ..x },
        ),
    }
}

/// The session after another torn edge was set.
pub open spec fn edge_set(s: SessionView, after: Option<EdgeEffect>) -> SessionView {
    crate::editor::session::executed(
        s,
        CommandView::SetEdgeEffect { before: s.document.edge_effect, after },
    )
}

/// The session after another border was set.
pub open spec fn border_set(s: SessionView, after: Option<Border>) -> SessionView {
    crate::editor::session::executed(
        s,
        CommandView::SetBorder { before: s.document.border, after },
    )
}

impl Session {
    /// The check box of the torn edge: off, or on with the default look.
    pub fn toggle_edge(&mut self)
        ensures
            final(self)@ == edge_set(
                old(self)@,
                if old(self)@.document.edge_effect is Some {
                    None
                } else {
                    Some(crate::editor::document::default_edge())
                },
            ),
    {
        let before = self.document.edge_effect;
        let after = match before {
            Some(_) => None,
            None => Some(EdgeEffect::default()),
        };
        self.execute_command(Command::SetEdgeEffect(SetEdgeEffect::new(before, after)));
    }

    /// A field of the torn edge; without a torn edge there is none.
    pub fn edit_edge_effect(&mut self, e: EdgeEdit)
        ensures
            final(self)@ == match old(self)@.document.edge_effect {
                Some(x) => edge_set(old(self)@, Some(edge_edited(x, e))),
                None => old(self)@,
            },
    {
        match self.document.edge_effect {
            Some(x) => {
                let after = edit_edge(x, e);
                self.execute_command(
                    Command::SetEdgeEffect(SetEdgeEffect::new(Some(x), Some(after))),
                );
            },
            None => {},
        }
    }

    /// The check box of the border: off, or on with the default look.
    pub fn toggle_border(&mut self)
        ensures
            final(self)@ == border_set(
                old(self)@,
                if old(self)@.document.border is Some {
                    None
                } else {
                    Some(crate::editor::document::default_border())
                },
            ),
    {
        let before = self.document.border;
        let after = match before {
            Some(_) => None,
            None => Some(Border::default()),
        };
        self.execute_command(Command::SetBorder(SetBorder::new(before, after)));
    }

    /// A field of the border; a colour that cannot be read changes nothing.
    pub fn edit_border_effect(&mut self, e: &BorderEdit)
        ensures
            final(self)@ == match old(self)@.document.border {
                Some(x) => match border_edited(x, *e) {
                    Some(y) => border_set(old(self)@, Some(y)),
                    None => old(self)@,
                },
                None => old(self)@,
            },
    {
        match self.document.border {
            Some(x) => match edit_border(x, e) {
                Some(y) => {
                    self.execute_command(Command::SetBorder(SetBorder::new(Some(x), Some(y))));
                },
                None => {},
            },
            None => {},
        }
    }
}

/// The fields of an annotation are those that have a value, each once.
pub proof fn law_fields_have_values(n: NodeView, f: Field, i: int, j: int)
    ensures
        fields_of(n).contains(f) <==> value_of(n, f) is Some,
        0 <= i < fields_of(n).len() && 0 <= j < fields_of(n).len() && fields_of(n)[i]
            == fields_of(n)[j] ==> i == j,
{
    let s = fields_of(n);
    assert(s.len() > 0 ==> s.contains(s[0]));
    assert(s.len() > 1 ==> s.contains(s[1]));
    assert(s.len() > 2 ==> s.contains(s[2]));
    assert(s.len() > 3 ==> s.contains(s[3]));
    assert(s.len() > 4 ==> s.contains(s[4]));
    assert(s.len() > 5 ==> s.contains(s[5]));
}

/// A field shows the part of the annotation that it is named for.
pub proof fn law_fields_show_their_part(n: NodeView)
    ensures
        n matches NodeView::Arrow { color, thickness, shadow, .. } ==> value_of(
            n,
            Field::ArrowColor,
        ) == Some(FieldValueView::Color(color)) && value_of(n, Field::ArrowShadow) == Some(
            FieldValueView::Flag(shadow),
        ) && value_of(n, Field::ArrowThickness)->Some_0->Number_value == thickness,
        n matches NodeView::Text { color, size_px, frosted, shadow, .. } ==> value_of(
            n,
            Field::TextColor,
        ) == Some(FieldValueView::Color(color)) && value_of(n, Field::TextFrosted) == Some(
            FieldValueView::Flag(frosted),
        ) && value_of(n, Field::TextShadow) == Some(FieldValueView::Flag(shadow)) && value_of(
            n,
            Field::TextSize,
        )->Some_0->Number_value == size_px,
        n matches NodeView::Shape { stroke, stroke_width, fill, .. } ==> value_of(
            n,
            Field::ShapeStroke,
        ) == Some(FieldValueView::Color(stroke)) && value_of(n, Field::ShapeFill) == Some(
            FieldValueView::Color(fill),
        ) && value_of(n, Field::ShapeFilled) == Some(FieldValueView::Flag(fill.a > 0)) && value_of(
            n,
            Field::ShapeStrokeWidth,
        )->Some_0->Number_value == stroke_width,
        n matches NodeView::Step { radius, number, fill, text_color, .. } ==> value_of(
            n,
            Field::StepFill,
        ) == Some(FieldValueView::Color(fill)) && value_of(n, Field::StepText) == Some(
            FieldValueView::Color(text_color),
        ) && value_of(n, Field::StepRadius)->Some_0->Number_value == radius && value_of(
            n,
            Field::StepNumber,
        )->Some_0->Integer_value == number,
        n matches NodeView::Blur { radius_px, .. } ==> value_of(
            n,
            Field::BlurRadius,
        )->Some_0->Number_value == radius_px,
        n matches NodeView::Magnify { border, border_width, circular, .. } ==> value_of(
            n,
            Field::MagnifyCircular,
        ) == Some(FieldValueView::Flag(circular)) && value_of(n, Field::MagnifyBorder) == Some(
            FieldValueView::Color(border),
        ) && value_of(n, Field::MagnifyBorderWidth)->Some_0->Number_value == border_width,
        n matches NodeView::Callout { fill, stroke, text_color, .. } ==> value_of(
            n,
            Field::CalloutFill,
        ) == Some(FieldValueView::Color(fill)) && value_of(n, Field::CalloutStroke) == Some(
            FieldValueView::Color(stroke),
        ) && value_of(n, Field::CalloutText) == Some(FieldValueView::Color(text_color)),
{
}

/// A number that is typed is shown afterwards, kept within the limits that the
/// field shows; the limits do not depend on it.
pub proof fn law_numbers_stay_in_their_limits(n: NodeView, f: Field, v: Px, i: u32)
    ensures
        value_of(n, f) matches Some(FieldValueView::Number { value: _, min, max, step }) ==> {
            let after = value_of(edited(n, f, FieldEdit::Number(v)), f);
            &&& min.at_most(max) && min.rank() >= 0 && step.rank() > 0
            &&& after is Some && after->Some_0 is Number
            &&& after->Some_0->Number_min == min && after->Some_0->Number_max == max
                && after->Some_0->Number_step == step
            &&& min.at_most(v) && v.at_most(max) ==> after->Some_0->Number_value == v
            &&& !v.is_nan() && !min.at_most(v) ==> after->Some_0->Number_value == min
            &&& !v.is_nan() && !v.at_most(max) ==> after->Some_0->Number_value == max
        },
        value_of(n, f) matches Some(FieldValueView::Integer { value: _, min, max }) ==> {
            let after = value_of(edited(n, f, FieldEdit::Integer(i)), f);
            &&& min == 1 && max == 999
            &&& after is Some && after->Some_0 is Integer
            &&& after->Some_0->Integer_min == min && after->Some_0->Integer_max == max
            &&& min <= i <= max ==> after->Some_0->Integer_value == i
            &&& i < min ==> after->Some_0->Integer_value == min
            &&& i > max ==> after->Some_0->Integer_value == max
        },
{
}

/// The limits of the numbers: lines up to 32 pixels, a loupe's border up to 20
/// and down to none, texts of 8 to 200, markers of 6 to 80, blurs of 1 to 60.
pub proof fn law_limits_of_numbers(n: NodeView, f: Field)
    ensures
        value_of(n, f) matches Some(FieldValueView::Number { value: _, min, max, step }) ==> {
            &&& f is ArrowThickness ==> crate::px::is_pattern_of(min.bits, 2, 0, 2)
            &&& f is ArrowThickness || f is ShapeStrokeWidth ==> crate::px::is_pattern_of(
                max.bits,
                64,
                5,
                64,
            )
            &&& f is ShapeStrokeWidth ==> crate::px::is_pattern_of(min.bits, 1, -1, 1)
            &&& f is TextSize ==> crate::px::is_pattern_of(min.bits, 16, 3, 16)
                && crate::px::is_pattern_of(max.bits, 400, 7, 256)
            &&& f is StepRadius ==> crate::px::is_pattern_of(min.bits, 12, 2, 8)
                && crate::px::is_pattern_of(max.bits, 160, 6, 128)
            &&& f is BlurRadius ==> crate::px::is_pattern_of(min.bits, 2, 0, 2)
                && crate::px::is_pattern_of(max.bits, 120, 5, 64)
            &&& f is MagnifyBorderWidth ==> min.bits == 0 && crate::px::is_pattern_of(
                max.bits,
                40,
                4,
                32,
            )
            &&& f is ArrowThickness || f is ShapeStrokeWidth || f is MagnifyBorderWidth
                <==> crate::px::is_pattern_of(step.bits, 1, -1, 1)
            &&& f is TextSize || f is StepRadius || f is BlurRadius <==> crate::px::is_pattern_of(
                step.bits,
                2,
                0,
                2,
            )
        },
{
}

/// An edit changes what its own field shows and no other, but that a fill's
/// colour and whether it is filled are two sides of one thing; the annotation
/// stays where it is.
#[verifier::rlimit(60)]
pub proof fn law_edit_changes_one_field(n: NodeView, f: Field, e: FieldEdit, g: Field)
    ensures
        g != f && !(f is ShapeFilled && g is ShapeFill) ==> value_of(edited(n, f, e), g)
            == value_of(n, g),
        f is ShapeFilled ==> (value_of(n, Field::ShapeFill) matches Some(
            FieldValueView::Color(before),
        ) ==> (value_of(edited(n, f, e), Field::ShapeFill) matches Some(FieldValueView::Color(after))
            && after.r == before.r && after.g == before.g && after.b == before.b)),
        crate::editor::tools::selection::click_box(edited(n, f, e))
            == crate::editor::tools::selection::click_box(n),
        n matches NodeView::Arrow { start, end, control, .. } ==> edited(n, f, e)->Arrow_start
            == start && edited(n, f, e)->Arrow_end == end && edited(n, f, e)->Arrow_control
            == control,
        n matches NodeView::Text { text, .. } ==> edited(n, f, e)->Text_text == text,
        n matches NodeView::Callout { text, tail, .. } ==> edited(n, f, e)->Callout_text == text
            && edited(n, f, e)->Callout_tail == tail,
        n matches NodeView::Step { center, .. } ==> edited(n, f, e)->Step_center == center,
        n is Stamp || n is CaptureInfo ==> edited(n, f, e) == n,
{
    match n {
        NodeView::Arrow { .. } => {
            assert(value_of(n, g) is Some ==> g is ArrowColor || g is ArrowThickness
                || g is ArrowShadow || g is ArrowLine || g is ArrowHead);
        },
        NodeView::Text { .. } => {
            assert(value_of(n, g) is Some ==> g is TextColor || g is TextSize || g is TextFrosted
                || g is TextShadow || g is TextAlignment || g is TextList);
        },
        NodeView::Shape { .. } => {},
        NodeView::Step { .. } => {},
        NodeView::Blur { .. } => {},
        NodeView::Magnify { .. } => {},
        NodeView::Callout { .. } => {},
        NodeView::Stamp { .. } => {},
        NodeView::CaptureInfo { .. } => {},
    }
}

/// An edit of the torn edge sets the one thing it is for, kept within its
/// limits: 1 to 120 pixels deep, teeth of 4 to 120.
pub proof fn law_edge_edit_sets_one_thing(x: EdgeEffect, e: EdgeEdit)
    ensures
        ({
            let a = edge_edited(x, e);
            let one = Px { bits: 0x3f80_0000 };
            let four = Px { bits: 0x4080_0000 };
            let most = Px { bits: 0x42f0_0000 };
            &&& e matches EdgeEdit::Top(b) ==> a.top == b
            &&& e matches EdgeEdit::Bottom(b) ==> a.bottom == b
            &&& e matches EdgeEdit::Left(b) ==> a.left == b
            &&& e matches EdgeEdit::Right(b) ==> a.right == b
            &&& e is Top || a.top == x.top
            &&& e is Bottom || a.bottom == x.bottom
            &&& e is Left || a.left == x.left
            &&& e is Right || a.right == x.right
            &&& e is Depth || a.depth == x.depth
            &&& e is Teeth || a.teeth == x.teeth
            &&& a.edge == x.edge
            &&& e matches EdgeEdit::Depth(v) ==> (one.at_most(v) && v.at_most(most) ==> a.depth
                == v) && (!v.is_nan() ==> one.at_most(a.depth) && a.depth.at_most(most))
            &&& e matches EdgeEdit::Teeth(v) ==> (four.at_most(v) && v.at_most(most) ==> a.teeth
                == v) && (!v.is_nan() ==> four.at_most(a.teeth) && a.teeth.at_most(most))
        }),
{
}

/// An edit of the border sets the one thing it is for, kept within its limits,
/// up to 120 pixels wide and 60 of blur; a colour keeps its alpha, and one that
/// cannot be read changes nothing.
pub proof fn law_border_edit_sets_one_thing(x: Border, e: BorderEdit)
    ensures
        ({
            let r = border_edited(x, e);
            let a = r->Some_0;
            let zero = Px { bits: 0 };
            let wide = Px { bits: 0x42f0_0000 };
            let soft = Px { bits: 0x4270_0000 };
            &&& r is None ==> e is Color || e is MatteColor
            &&& e matches BorderEdit::Color(t) ==> (r is Some
                <==> crate::editor::style::color_of(t@, x.color.a) is Some) && (r is Some
                ==> a.color.a == x.color.a && crate::editor::style::color_of(t@, x.color.a)
                == Some(a.color))
            &&& e matches BorderEdit::MatteColor(t) ==> (r is Some
                <==> crate::editor::style::color_of(t@, x.matte_color.a) is Some) && (r is Some
                ==> a.matte_color.a == x.matte_color.a && crate::editor::style::color_of(
                t@,
                x.matte_color.a,
            ) == Some(a.matte_color))
            &&& r is Some ==> {
                &&& e is Width || a.width == x.width
                &&& e is Color || a.color == x.color
                &&& e is MatteWidth || a.matte_width == x.matte_width
                &&& e is MatteColor || a.matte_color == x.matte_color
                &&& e is ShadowRadius || a.shadow_radius == x.shadow_radius
                &&& a.shadow_offset == x.shadow_offset && a.shadow_color == x.shadow_color
            }
            &&& e matches BorderEdit::Width(v) ==> (zero.at_most(v) && v.at_most(wide) ==> a.width
                == v) && (!v.is_nan() ==> zero.at_most(a.width) && a.width.at_most(wide))
            &&& e matches BorderEdit::MatteWidth(v) ==> (zero.at_most(v) && v.at_most(wide)
                ==> a.matte_width == v) && (!v.is_nan() ==> zero.at_most(a.matte_width)
                && a.matte_width.at_most(wide))
            &&& e matches BorderEdit::ShadowRadius(v) ==> (zero.at_most(v) && v.at_most(soft)
                ==> a.shadow_radius == v) && (!v.is_nan() ==> zero.at_most(a.shadow_radius)
                && a.shadow_radius.at_most(soft))
        }),
{
}

/// Setting an effect sets it alone, leaves unsaved changes, and can be undone.
pub proof fn law_effects_are_set(s: SessionView, e: Option<EdgeEffect>, b: Option<Border>)
    ensures
        edge_set(s, e).document == (crate::editor::document::DocumentView {
            edge_effect: e,
            ..s.document
        }),
        border_set(s, b).document == (crate::editor::document::DocumentView {
            border: b,
            ..s.document
        }),
        edge_set(s, e).dirty && border_set(s, b).dirty,
        crate::editor::session::undone(edge_set(s, e)).document == s.document,
        crate::editor::session::undone(border_set(s, b)).document == s.document,
{
    crate::editor::commands::law_undo_redo_after_push(
        s.history,
        CommandView::SetEdgeEffect { before: s.document.edge_effect, after: e },
        s.document,
    );
    crate::editor::commands::law_undo_redo_after_push(
        s.history,
        CommandView::SetBorder { before: s.document.border, after: b },
        s.document,
    );
}

/// Annotations of one kind have one name, those of two kinds two, and the name
/// begins as the kind's does.
pub proof fn law_kinds_have_names(n: NodeView)
    ensures
        kind_text(n)[0] == (match n {
            NodeView::Arrow { .. } => 'A',
            NodeView::Text { .. } => 'T',
            NodeView::Shape { .. } | NodeView::Step { .. } | NodeView::Stamp { .. } => 'S',
            NodeView::Magnify { .. } => 'M',
            NodeView::Blur { .. } => 'B',
            NodeView::Callout { .. } | NodeView::CaptureInfo { .. } => 'C',
        }),
        kind_text(n).len() == (match n {
            NodeView::Text { .. } | NodeView::Step { .. } | NodeView::Blur { .. } => 4int,
            NodeView::Arrow { .. } | NodeView::Shape { .. } | NodeView::Stamp { .. } => 5,
            NodeView::Callout { .. } => 7,
            NodeView::Magnify { .. } => 9,
            NodeView::CaptureInfo { .. } => 12,
        }),
        n is Shape <==> kind_text(n)[1] == 'h',
        n is Stamp ==> kind_text(n)[1] == 't',
{
    reveal_strlit("Arrow");
    reveal_strlit("Text");
    reveal_strlit("Shape");
    reveal_strlit("Step");
    reveal_strlit("Magnifier");
    reveal_strlit("Blur");
    reveal_strlit("Callout");
    reveal_strlit("Stamp");
    reveal_strlit("Capture info");
}

} // verus!
