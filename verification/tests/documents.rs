use grabit::capture::{CaptureMetadata, CaptureResult, CursorLayer, Rect};
use grabit::clock::CivilTime;
use grabit::codec::{decode_image, encode_png};
use grabit::editor::document::{
    from_capture, AnnotationNode, ArrowHeadStyle, ArrowLineStyle, Border, CaptureInfoPosition,
    CaptureInfoStyle, Document, Edge, EdgeEffect, FieldKind, NodeId, ShapeKind, StampSource,
    TextAlign, TextListStyle, DOCUMENT_SCHEMA_VERSION,
};
use grabit::editor::record::{record, restore, DocumentRecord, NodeRecord};
use grabit::export::png::{flatten, save_from_capture, save_png};
use grabit::image::RgbaImage;
use grabit::px::{Bounds, Point, Px, Rgba};

fn px(v: f32) -> Px {
    Px { bits: v.to_bits() }
}

fn f(v: Px) -> f32 {
    f32::from_bits(v.bits)
}

fn at(x: f32, y: f32) -> Point {
    Point { x: px(x), y: px(y) }
}

fn rect(a: f32, b: f32, c: f32, d: f32) -> Bounds {
    Bounds { min_x: px(a), min_y: px(b), max_x: px(c), max_y: px(d) }
}

fn stub_metadata() -> CaptureMetadata {
    CaptureMetadata {
        captured_at: CivilTime {
            year: 2024,
            month: 1,
            day: 1,
            hour: 0,
            minute: 0,
            second: 0,
            nanosecond: 0,
        },
        foreground_title: Some("title".into()),
        foreground_process: None,
        os_version: "test".into(),
        monitors: vec![],
        capture_rect: Rect { x: 0, y: 0, width: 4, height: 4 },
    }
}

fn stub_doc() -> Document {
    let img = RgbaImage::from_pixel(2, 2, Rgba::new(0, 0, 0, 0));
    Document {
        schema_version: DOCUMENT_SCHEMA_VERSION,
        id: NodeId::random(),
        base_png: encode_png(&img).unwrap(),
        base_width: 2,
        base_height: 2,
        cursor: None,
        annotations: Vec::new(),
        metadata: stub_metadata(),
        edge_effect: None,
        border: None,
    }
}

fn round_trip(doc: &Document) -> Document {
    restore(&record(doc))
}

/// A document with one annotation that an older version wrote.
fn legacy(node: NodeRecord) -> Document {
    let base = record(&stub_doc());
    restore(&DocumentRecord { annotations: vec![node], ..base })
}

#[test]
fn round_trip_arrow() {
    let mut doc = stub_doc();
    let id = NodeId::random();
    doc.annotations.push(AnnotationNode::Arrow {
        id,
        start: at(1.0, 2.0),
        end: at(3.0, 4.0),
        color: Rgba::new(10, 20, 30, 40),
        thickness: px(5.0),
        shadow: false,
        line_style: ArrowLineStyle::default(),
        head_style: ArrowHeadStyle::default(),
        control: None,
    });
    let back = round_trip(&doc);
    assert_eq!(back.annotations.len(), 1);
    assert_eq!(back.annotations[0].id(), id);
}

#[test]
fn round_trip_text() {
    let mut doc = stub_doc();
    doc.annotations.push(AnnotationNode::Text {
        id: NodeId::random(),
        rect: rect(5.0, 6.0, 105.0, 56.0),
        text: "hello\nworld".into(),
        color: Rgba::new(1, 2, 3, 4),
        size_px: px(18.0),
        frosted: false,
        shadow: false,
        align: TextAlign::default(),
        list: TextListStyle::default(),
    });
    let back = round_trip(&doc);
    match &back.annotations[0] {
        AnnotationNode::Text { text, rect: r, .. } => {
            assert_eq!(text, "hello\nworld");
            assert_eq!(*r, rect(5.0, 6.0, 105.0, 56.0));
        }
        _ => panic!("wrong variant"),
    }
}

fn old_text(frosted: Option<bool>, shadow: Option<bool>, align: Option<TextAlign>) -> NodeRecord {
    NodeRecord::Text {
        id: NodeId::random(),
        rect: rect(0.0, 0.0, 10.0, 10.0),
        text: "old".into(),
        color: Rgba::new(0, 0, 0, 255),
        size_px: px(12.0),
        frosted,
        shadow,
        align,
        list: None,
    }
}

#[test]
fn round_trip_text_effects_flags() {
    let mut doc = stub_doc();
    doc.annotations.push(AnnotationNode::Text {
        id: NodeId::random(),
        rect: rect(0.0, 0.0, 100.0, 40.0),
        text: "fx".into(),
        color: Rgba::new(10, 20, 30, 255),
        size_px: px(16.0),
        frosted: true,
        shadow: true,
        align: TextAlign::Left,
        list: TextListStyle::Plain,
    });
    let back = round_trip(&doc);
    match &back.annotations[0] {
        AnnotationNode::Text { frosted, shadow, .. } => {
            assert!(*frosted);
            assert!(*shadow);
        }
        _ => panic!("wrong variant"),
    }
    let loaded = legacy(old_text(None, None, None));
    match &loaded.annotations[0] {
        AnnotationNode::Text { frosted, shadow, align, .. } => {
            assert!(!*frosted);
            assert!(!*shadow);
            assert_eq!(*align, TextAlign::Left);
        }
        _ => panic!("wrong variant"),
    }
}

#[test]
fn round_trip_text_align() {
    for align in [TextAlign::Left, TextAlign::Center, TextAlign::Right] {
        let mut doc = stub_doc();
        doc.annotations.push(AnnotationNode::Text {
            id: NodeId::random(),
            rect: rect(0.0, 0.0, 100.0, 40.0),
            text: "hi".into(),
            color: Rgba::new(10, 20, 30, 255),
            size_px: px(16.0),
            frosted: false,
            shadow: false,
            align,
            list: TextListStyle::Plain,
        });
        let back = round_trip(&doc);
        match &back.annotations[0] {
            AnnotationNode::Text { align: a, .. } => assert_eq!(*a, align),
            _ => panic!("wrong variant"),
        }
    }
    let loaded = legacy(old_text(Some(true), Some(false), None));
    match &loaded.annotations[0] {
        AnnotationNode::Text { align, frosted, .. } => {
            assert_eq!(*align, TextAlign::Left);
            assert!(*frosted);
        }
        _ => panic!("wrong variant"),
    }
}

#[test]
fn round_trip_text_list() {
    for list in [TextListStyle::Plain, TextListStyle::Bullet, TextListStyle::Numbered] {
        let mut doc = stub_doc();
        doc.annotations.push(AnnotationNode::Text {
            id: NodeId::random(),
            rect: rect(0.0, 0.0, 100.0, 40.0),
            text: "a\nb".into(),
            color: Rgba::new(10, 20, 30, 255),
            size_px: px(16.0),
            frosted: false,
            shadow: false,
            align: TextAlign::Left,
            list,
        });
        let back = round_trip(&doc);
        match &back.annotations[0] {
            AnnotationNode::Text { list: l, .. } => assert_eq!(*l, list),
            _ => panic!("wrong variant"),
        }
    }
    let loaded = legacy(old_text(Some(false), Some(false), Some(TextAlign::Right)));
    match &loaded.annotations[0] {
        AnnotationNode::Text { list, align, .. } => {
            assert_eq!(*list, TextListStyle::Plain);
            assert_eq!(*align, TextAlign::Right);
        }
        _ => panic!("wrong variant"),
    }
}

#[test]
fn round_trip_callout() {
    let mut doc = stub_doc();
    doc.annotations.push(AnnotationNode::Callout {
        id: NodeId::random(),
        rect: rect(10.0, 10.0, 60.0, 40.0),
        tail: at(5.0, 50.0),
        text: "note".into(),
        fill: Rgba::new(255, 255, 220, 230),
        stroke: Rgba::new(0, 0, 0, 255),
        stroke_width: px(2.0),
        text_color: Rgba::new(0, 0, 0, 255),
        text_size: px(16.0),
    });
    let back = round_trip(&doc);
    assert!(matches!(back.annotations[0], AnnotationNode::Callout { .. }));
}

#[test]
fn round_trip_shape() {
    let mut doc = stub_doc();
    doc.annotations.push(AnnotationNode::Shape {
        id: NodeId::random(),
        shape: ShapeKind::Ellipse,
        rect: rect(0.0, 0.0, 100.0, 50.0),
        stroke: Rgba::new(200, 0, 0, 255),
        stroke_width: px(3.0),
        fill: Rgba::new(0, 0, 0, 0),
    });
    let back = round_trip(&doc);
    match &back.annotations[0] {
        AnnotationNode::Shape { shape, .. } => assert_eq!(*shape, ShapeKind::Ellipse),
        _ => panic!("wrong variant"),
    }
}

#[test]
fn round_trip_step() {
    let mut doc = stub_doc();
    doc.annotations.push(AnnotationNode::Step {
        id: NodeId::random(),
        center: at(40.0, 40.0),
        radius: px(20.0),
        number: 7,
        fill: Rgba::new(220, 40, 40, 255),
        text_color: Rgba::new(255, 255, 255, 255),
    });
    let back = round_trip(&doc);
    match &back.annotations[0] {
        AnnotationNode::Step { number, .. } => assert_eq!(*number, 7),
        _ => panic!("wrong variant"),
    }
}

#[test]
fn round_trip_stamp_builtin() {
    let mut doc = stub_doc();
    doc.annotations.push(AnnotationNode::Stamp {
        id: NodeId::random(),
        source: StampSource::Builtin { name: "check".into() },
        rect: rect(0.0, 0.0, 64.0, 64.0),
    });
    let back = round_trip(&doc);
    match &back.annotations[0] {
        AnnotationNode::Stamp { source: StampSource::Builtin { name }, .. } => {
            assert_eq!(name, "check")
        }
        _ => panic!("wrong variant"),
    }
}

#[test]
fn round_trip_stamp_inline() {
    let mut doc = stub_doc();
    doc.annotations.push(AnnotationNode::Stamp {
        id: NodeId::random(),
        source: StampSource::Inline { png: vec![1, 2, 3, 4] },
        rect: rect(0.0, 0.0, 64.0, 64.0),
    });
    let back = round_trip(&doc);
    match &back.annotations[0] {
        AnnotationNode::Stamp { source: StampSource::Inline { png }, .. } => {
            assert_eq!(png, &vec![1, 2, 3, 4])
        }
        _ => panic!("wrong variant"),
    }
}

#[test]
fn round_trip_magnify() {
    let mut doc = stub_doc();
    doc.annotations.push(AnnotationNode::Magnify {
        id: NodeId::random(),
        source_rect: rect(10.0, 10.0, 30.0, 30.0),
        target_rect: rect(100.0, 100.0, 200.0, 200.0),
        border: Rgba::new(255, 255, 255, 255),
        border_width: px(3.0),
        circular: true,
    });
    let back = round_trip(&doc);
    match &back.annotations[0] {
        AnnotationNode::Magnify { circular, .. } => assert!(*circular),
        _ => panic!("wrong variant"),
    }
}

fn red_arrow(end: f32, thickness: f32) -> AnnotationNode {
    AnnotationNode::Arrow {
        id: NodeId::random(),
        start: at(0.0, 0.0),
        end: at(end, end),
        color: Rgba::new(255, 0, 0, 255),
        thickness: px(thickness),
        shadow: false,
        line_style: ArrowLineStyle::default(),
        head_style: ArrowHeadStyle::default(),
        control: None,
    }
}

#[test]
fn v1_documents_still_load() {
    let mut doc = stub_doc();
    doc.schema_version = 1;
    doc.annotations.push(red_arrow(10.0, 4.0));
    let back = round_trip(&doc);
    assert_eq!(back.schema_version, 1);
    assert_eq!(back.annotations.len(), 1);
}

#[test]
fn round_trip_blur() {
    let mut doc = stub_doc();
    doc.annotations.push(AnnotationNode::Blur {
        id: NodeId::random(),
        rect: rect(0.0, 0.0, 32.0, 32.0),
        radius_px: px(12.0),
    });
    let back = round_trip(&doc);
    match &back.annotations[0] {
        AnnotationNode::Blur { radius_px, .. } => {
            assert!((f(*radius_px) - 12.0).abs() < f32::EPSILON)
        }
        _ => panic!("wrong variant"),
    }
}

#[test]
fn round_trip_capture_info() {
    let mut doc = stub_doc();
    doc.annotations.push(AnnotationNode::CaptureInfo {
        id: NodeId::random(),
        position: CaptureInfoPosition::TopRight,
        fields: vec![FieldKind::Timestamp, FieldKind::OsVersion],
        style: CaptureInfoStyle::default(),
    });
    let back = round_trip(&doc);
    match &back.annotations[0] {
        AnnotationNode::CaptureInfo { position, fields, .. } => {
            assert_eq!(*position, CaptureInfoPosition::TopRight);
            assert_eq!(fields.len(), 2);
        }
        _ => panic!("wrong variant"),
    }
}

#[test]
fn round_trip_edge_effect() {
    let mut doc = stub_doc();
    doc.edge_effect = Some(EdgeEffect {
        edge: Edge::Top,
        top: true,
        bottom: false,
        left: false,
        right: false,
        depth: px(20.0),
        teeth: px(24.0),
    });
    let back = round_trip(&doc);
    let e = back.edge_effect.expect("edge_effect round-trip");
    assert_eq!(e.edge, Edge::Top);
    assert!((f(e.depth) - 20.0).abs() < f32::EPSILON);
}

#[test]
fn round_trip_border() {
    let mut doc = stub_doc();
    doc.border = Some(Border {
        color: Rgba::new(200, 100, 50, 255),
        width: px(8.0),
        shadow_radius: px(4.0),
        shadow_offset: at(2.0, 3.0),
        shadow_color: Rgba::new(0, 0, 0, 150),
        matte_width: px(0.0),
        matte_color: Rgba::new(245, 240, 230, 255),
    });
    let back = round_trip(&doc);
    let b = back.border.expect("border round-trip");
    assert_eq!(b.color, Rgba::new(200, 100, 50, 255));
    assert!((f(b.width) - 8.0).abs() < f32::EPSILON);
    assert_eq!(b.shadow_color, Rgba::new(0, 0, 0, 150));
}

#[test]
fn v2_documents_still_load_with_defaults() {
    let mut doc = stub_doc();
    doc.schema_version = 2;
    doc.annotations.push(red_arrow(4.0, 2.0));
    let v2 = DocumentRecord { edge_effect: None, border: None, ..record(&doc) };
    let loaded = restore(&v2);
    assert_eq!(loaded.schema_version, 2);
    assert_eq!(loaded.annotations.len(), 1);
    assert!(loaded.edge_effect.is_none());
    assert!(loaded.border.is_none());
}

#[test]
fn old_arrows_are_solid_and_without_shadow() {
    let loaded = legacy(NodeRecord::Arrow {
        id: NodeId::random(),
        start: at(0.0, 0.0),
        end: at(4.0, 4.0),
        color: Rgba::new(1, 2, 3, 255),
        thickness: px(2.0),
        shadow: None,
        line_style: None,
        head_style: None,
        control: None,
    });
    match &loaded.annotations[0] {
        AnnotationNode::Arrow { shadow, line_style, head_style, control, color, .. } => {
            assert!(!*shadow);
            assert_eq!(*line_style, ArrowLineStyle::Solid);
            assert_eq!(*head_style, ArrowHeadStyle::FilledTriangle);
            assert!(control.is_none());
            assert_eq!(*color, Rgba::new(1, 2, 3, 255));
        }
        _ => panic!("wrong variant"),
    }
}

fn capture() -> CaptureResult {
    let mut base = RgbaImage::from_pixel(3, 2, Rgba::new(10, 20, 30, 255));
    base.put_pixel(0, 1, Rgba::new(1, 1, 1, 255));
    let mut cursor = RgbaImage::from_pixel(2, 2, Rgba::new(255, 0, 0, 255));
    cursor.put_pixel(0, 0, Rgba::new(0, 0, 0, 0));
    CaptureResult {
        base,
        cursor: Some(CursorLayer { image: cursor, x: 2, y: 0 }),
        metadata: stub_metadata(),
    }
}

#[test]
fn a_capture_becomes_a_document() {
    let result = capture();
    let doc = from_capture(&result).unwrap();
    assert_eq!(doc.schema_version, DOCUMENT_SCHEMA_VERSION);
    assert_eq!((doc.base_width, doc.base_height), (3, 2));
    let img = decode_image(&doc.base_png).unwrap();
    assert_eq!(img.raw, result.base.raw);
    let c = doc.cursor.as_ref().unwrap();
    assert_eq!((c.x, c.y, c.width, c.height), (2, 0, 2, 2));
    assert!(doc.annotations.is_empty() && doc.edge_effect.is_none() && doc.border.is_none());
    let id = NodeId { value: 7 };
    assert_eq!(save_from_capture(&result, id).unwrap().id, id);
}

#[test]
fn flattening_puts_the_cursor_over_the_picture() {
    let result = capture();
    let flat = flatten(&result);
    assert_eq!(flat.get_pixel(0, 0), Rgba::new(10, 20, 30, 255));
    // The cursor's corner is transparent, and half of it lies outside.
    assert_eq!(flat.get_pixel(2, 0), Rgba::new(10, 20, 30, 255));
    assert_eq!(flat.get_pixel(2, 1), Rgba::new(255, 0, 0, 255));
    let png = save_png(&result).unwrap();
    assert_eq!(decode_image(&png).unwrap().raw, flat.raw);
}

#[test]
fn bytes_that_are_no_picture_do_not_decode() {
    assert!(decode_image(&vec![1, 2, 3]).is_none());
}
