use grabit::capture::{CaptureMetadata, Rect};
use grabit::clock::CivilTime;
use grabit::codec::encode_png;
use grabit::editor::commands::{
    AddAnnotation, Command, History, RemoveAnnotation, RemoveCursor, SetBorder, SetEdgeEffect,
    UpdateAnnotation, UpdateCursor, HISTORY_LIMIT,
};
use grabit::editor::document::{
    AnnotationNode, ArrowHeadStyle, ArrowLineStyle, Border, Document, EdgeEffect, NodeId,
    SerializedCursor, DOCUMENT_SCHEMA_VERSION,
};
use grabit::image::RgbaImage;
use grabit::px::{Point, Px, Rgba};

fn px(v: f32) -> Px {
    Px { bits: v.to_bits() }
}

fn at(x: f32, y: f32) -> Point {
    Point { x: px(x), y: px(y) }
}

fn empty_doc() -> Document {
    let img = RgbaImage::from_pixel(2, 2, Rgba::new(0, 0, 0, 0));
    Document {
        schema_version: DOCUMENT_SCHEMA_VERSION,
        id: NodeId::random(),
        base_png: encode_png(&img).unwrap(),
        base_width: 2,
        base_height: 2,
        cursor: None,
        annotations: Vec::new(),
        metadata: CaptureMetadata {
            captured_at: CivilTime {
                year: 2024,
                month: 1,
                day: 1,
                hour: 0,
                minute: 0,
                second: 0,
                nanosecond: 0,
            },
            foreground_title: None,
            foreground_process: None,
            os_version: "t".into(),
            monitors: vec![],
            capture_rect: Rect { x: 0, y: 0, width: 2, height: 2 },
        },
        edge_effect: None,
        border: None,
    }
}

fn arrow(id: NodeId) -> AnnotationNode {
    AnnotationNode::Arrow {
        id,
        start: at(0.0, 0.0),
        end: at(1.0, 1.0),
        color: Rgba::new(10, 20, 30, 255),
        thickness: px(2.0),
        shadow: false,
        line_style: ArrowLineStyle::Solid,
        head_style: ArrowHeadStyle::FilledTriangle,
        control: None,
    }
}

fn thickness_of(n: &AnnotationNode) -> f32 {
    match n {
        AnnotationNode::Arrow { thickness, .. } => f32::from_bits(thickness.bits),
        _ => panic!("not an arrow"),
    }
}

fn add(node: AnnotationNode) -> Command {
    Command::Add(AddAnnotation::new(node))
}

#[test]
fn add_then_undo_redo_identity() {
    let mut doc = empty_doc();
    let mut h = History::new();
    let id = NodeId::random();
    h.push(add(arrow(id)), &mut doc);
    assert_eq!(doc.annotations.len(), 1);
    assert!(h.undo(&mut doc));
    assert_eq!(doc.annotations.len(), 0);
    assert!(h.redo(&mut doc));
    assert_eq!(doc.annotations.len(), 1);
    assert_eq!(doc.annotations[0].id(), id);
}

#[test]
fn remove_preserves_z_order() {
    let mut doc = empty_doc();
    let ids: Vec<NodeId> = (0..3).map(|_| NodeId::random()).collect();
    for id in &ids {
        doc.annotations.push(arrow(*id));
    }
    let mut h = History::new();
    h.push(Command::Remove(RemoveAnnotation::new(ids[1])), &mut doc);
    assert_eq!(doc.annotations.len(), 2);
    h.undo(&mut doc);
    assert_eq!(doc.annotations.iter().map(|n| n.id()).collect::<Vec<_>>(), ids);
}

#[test]
fn update_round_trips() {
    let mut doc = empty_doc();
    let id = NodeId::random();
    doc.annotations.push(arrow(id));
    let mut h = History::new();
    let before = doc.annotations[0].clone();
    let mut after = before.clone();
    if let AnnotationNode::Arrow { thickness, .. } = &mut after {
        *thickness = px(9.0);
    }
    h.push(Command::Update(UpdateAnnotation::new(before, after)), &mut doc);
    assert!((thickness_of(&doc.annotations[0]) - 9.0).abs() < f32::EPSILON);
    h.undo(&mut doc);
    assert!((thickness_of(&doc.annotations[0]) - 2.0).abs() < f32::EPSILON);
    h.redo(&mut doc);
    assert!((thickness_of(&doc.annotations[0]) - 9.0).abs() < f32::EPSILON);
}

#[test]
fn history_bounded() {
    let mut doc = empty_doc();
    let mut h = History::new();
    for _ in 0..(HISTORY_LIMIT + 10) {
        h.push(add(arrow(NodeId::random())), &mut doc);
    }
    // The undo stack can only grow to HISTORY_LIMIT.
    assert_eq!(h.undo_len(), HISTORY_LIMIT);
}

#[test]
fn as_many_undos_succeed_as_the_history_keeps() {
    let mut doc = empty_doc();
    let mut h = History::new();
    let ids: Vec<NodeId> = (0..HISTORY_LIMIT + 10).map(|_| NodeId::random()).collect();
    for id in &ids {
        h.push(add(arrow(*id)), &mut doc);
    }
    for left in (10..ids.len()).rev() {
        h.undo(&mut doc);
        assert_eq!(doc.annotations.len(), left);
        assert_eq!(doc.annotations[left - 1].id(), ids[left - 1]);
    }
    h.undo(&mut doc);
    assert_eq!(doc.annotations.len(), 10);
}

#[test]
fn cursor_remove_round_trips() {
    let mut doc = empty_doc();
    doc.cursor = Some(SerializedCursor { png: vec![1, 2, 3], width: 16, height: 16, x: 5, y: 7 });
    let mut h = History::new();
    h.push(Command::RemoveCursor(RemoveCursor::new()), &mut doc);
    assert!(doc.cursor.is_none());
    h.undo(&mut doc);
    assert!(doc.cursor.is_some());
    let c = doc.cursor.as_ref().unwrap();
    assert_eq!(c.x, 5);
    assert_eq!(c.width, 16);
}

#[test]
fn new_push_clears_redo() {
    let mut doc = empty_doc();
    let mut h = History::new();
    h.push(add(arrow(NodeId::random())), &mut doc);
    h.undo(&mut doc);
    assert!(h.can_redo());
    h.push(add(arrow(NodeId::random())), &mut doc);
    assert!(!h.can_redo());
}

#[test]
fn undo_everything_then_redo_everything() {
    let mut doc = empty_doc();
    let base = doc.base_png.clone();
    let mut h = History::new();
    let ids: Vec<NodeId> = (0..5).map(|_| NodeId::random()).collect();
    for id in &ids {
        h.push(add(arrow(*id)), &mut doc);
    }
    h.push(Command::Remove(RemoveAnnotation::new(ids[2])), &mut doc);
    while h.undo(&mut doc) {}
    assert!(!h.can_undo());
    assert_eq!(doc.annotations.len(), 0);
    while h.redo(&mut doc) {}
    let left: Vec<NodeId> = doc.annotations.iter().map(|n| n.id()).collect();
    assert_eq!(left, vec![ids[0], ids[1], ids[3], ids[4]]);
    assert_eq!(doc.base_png, base);
    h.clear();
    assert!(!h.can_undo() && !h.can_redo());
}

#[test]
fn cursor_edge_and_border_commands_revert() {
    let mut doc = empty_doc();
    doc.cursor = Some(SerializedCursor { png: vec![9], width: 4, height: 4, x: 0, y: 0 });
    let mut h = History::new();
    h.push(Command::UpdateCursor(UpdateCursor::new((0, 0, 4, 4), (3, -2, 8, 8))), &mut doc);
    let c = doc.cursor.as_ref().unwrap();
    assert_eq!((c.x, c.y, c.width, c.height), (3, -2, 8, 8));
    let edge = EdgeEffect::default();
    h.push(Command::SetEdgeEffect(SetEdgeEffect::new(None, Some(edge))), &mut doc);
    let border = Border::default();
    h.push(Command::SetBorder(SetBorder::new(None, Some(border))), &mut doc);
    assert_eq!(doc.edge_effect, Some(edge));
    assert_eq!(doc.border, Some(border));
    assert!(h.undo(&mut doc) && h.undo(&mut doc) && h.undo(&mut doc));
    assert!(!h.undo(&mut doc));
    assert!(doc.edge_effect.is_none() && doc.border.is_none());
    let c = doc.cursor.as_ref().unwrap();
    assert_eq!((c.x, c.y, c.width, c.height), (0, 0, 4, 4));
}

#[test]
fn random_identities_differ_and_are_version_four() {
    let a = NodeId::random();
    let b = NodeId::random();
    assert_ne!(a, b);
    assert_eq!(uuid::Uuid::from_u128(a.value).get_version_num(), 4);
}
