use grabit::capture::{CaptureMetadata, Rect};
use grabit::clock::CivilTime;
use grabit::codec::encode_png;
use grabit::editor::document::{
    AnnotationNode, ArrowHeadStyle, ArrowLineStyle, CaptureInfoPosition, Document, Edge, FieldKind,
    NodeId, ShapeKind, TextAlign, TextListStyle, DOCUMENT_SCHEMA_VERSION,
};
use grabit::editor::inspector::{
    edit_edge, edit_node, edges_shown, field_value, kind_label, options_of, selection_properties,
    text_preview,
    EdgeEdit, Field, FieldEdit, FieldValue,
};
use grabit::editor::markup::{
    arrow_plan, dash_quarters, rgba_to_css, tail_edge, text_anchor, HeadPaint, Setback,
};
use grabit::editor::session::{Chrome, CloseAction, CopyFlash, DragMark, Session};
use grabit::editor::style::{
    color_to_hex, head_from_label, head_label, hex_to_color, list_from_label, list_label, palette,
    position_from_label, position_label, toggle_field, ToolStyle,
};
use grabit::editor::tools::selection::{
    drag_rect, handle_at, hit_test, rect_handles, resize_node, resize_rect, translate_node, Handle,
    NearHandles,
};
use grabit::editor::tools::step::next_number;
use grabit::editor::tools::Tool;
use grabit::hotkeys::bindings::KeyCode;
use grabit::image::RgbaImage;
use grabit::px::{Bounds, Point, Px, Rgba};
use grabit::settings::ui::{Held, PressedKey};
use grabit::settings::Settings;

fn px(v: f32) -> Px {
    Px { bits: v.to_bits() }
}

fn at(x: f32, y: f32) -> Point {
    Point { x: px(x), y: px(y) }
}

fn rect(a: f32, b: f32, c: f32, d: f32) -> Bounds {
    Bounds { min_x: px(a), min_y: px(b), max_x: px(c), max_y: px(d) }
}

fn doc() -> Document {
    let img = RgbaImage::from_pixel(2, 2, Rgba::new(0, 0, 0, 0));
    Document {
        schema_version: DOCUMENT_SCHEMA_VERSION,
        id: NodeId { value: 1 },
        base_png: encode_png(&img).unwrap(),
        base_width: 100,
        base_height: 80,
        cursor: None,
        annotations: Vec::new(),
        metadata: CaptureMetadata {
            captured_at: CivilTime {
                year: 2024,
                month: 1,
                day: 1,
                hour: 0,
                minute: 0,
                second: 0,
                nanosecond: 0,
            },
            foreground_title: None,
            foreground_process: None,
            os_version: "t".into(),
            monitors: vec![],
            capture_rect: Rect { x: 0, y: 0, width: 2, height: 2 },
        },
        edge_effect: None,
        border: None,
    }
}

fn session() -> Session {
    Session::new(doc(), &Settings::default(), true)
}

fn far() -> NearHandles {
    NearHandles { nw: false, n: false, ne: false, e: false, se: false, s: false, sw: false, w: false }
}

fn by(dx: f32, dy: f32) -> impl Fn(Point) -> Point {
    move |p: Point| at(f32::from_bits(p.x.bits) + dx, f32::from_bits(p.y.bits) + dy)
}

fn stay(p: Point) -> Point {
    p
}

fn drag(s: &mut Session, tool: Tool, from: Point, to: Point) -> Option<NodeId> {
    s.pick_tool(tool);
    let n = vec![false; s.document.annotations.len()];
    s.canvas_pointerdown(from, &n, far());
    s.canvas_pointermove(to, &stay);
    s.canvas_pointerup(to, false, false, rect(0.0, 0.0, 9.0, 9.0), at(1.0, 2.0), false, &stay)
}

fn held(ctrl: bool, shift: bool) -> Held {
    Held { ctrl, shift, alt: false, meta: false }
}

fn key(c: &str) -> PressedKey {
    PressedKey::Character(c.to_string())
}

#[test]
fn a_drag_draws_an_annotation_and_undo_takes_it_back() {
    let mut s = session();
    let id = drag(&mut s, Tool::Rect, at(30.0, 40.0), at(10.0, 20.0)).unwrap();
    assert!(s.dirty);
    match &s.document.annotations[0] {
        AnnotationNode::Shape { id: i, shape, rect: r, .. } => {
            assert_eq!(*i, id);
            assert_eq!(*shape, ShapeKind::Rect);
            assert_eq!(*r, rect(10.0, 20.0, 30.0, 40.0));
        }
        other => panic!("{other:?}"),
    }
    assert!(!s.global_keydown(&key("z"), held(true, false)));
    assert!(s.document.annotations.is_empty());
    s.global_keydown(&key("Z"), held(true, true));
    assert_eq!(s.document.annotations.len(), 1);
    s.global_keydown(&key("z"), held(false, false));
    assert_eq!(s.document.annotations.len(), 1);
    assert!(s.global_keydown(&key("S"), held(true, false)));
}

#[test]
fn short_drags_draw_nothing() {
    let mut s = session();
    s.pick_tool(Tool::Rect);
    s.canvas_pointerdown(at(1.0, 1.0), &[], far());
    assert!(s.canvas_pointerup(at(2.0, 9.0), true, false, rect(0.0, 0.0, 1.0, 1.0), at(0.0, 0.0), true, &stay).is_none());
    // An arrow may be short in one direction.
    s.pick_tool(Tool::Arrow);
    s.canvas_pointerdown(at(1.0, 1.0), &[], far());
    assert!(s.canvas_pointerup(at(1.0, 9.0), true, false, rect(0.0, 0.0, 1.0, 1.0), at(0.0, 0.0), true, &stay).is_some());
    assert_eq!(s.document.annotations.len(), 1);
}

#[test]
fn steps_count_up() {
    let mut s = session();
    s.pick_tool(Tool::Step);
    for n in 0..3usize {
        let curved = vec![false; n];
        s.canvas_pointerdown(at(n as f32, 0.0), &curved, far()).unwrap();
    }
    let numbers: Vec<u32> = s
        .document
        .annotations
        .iter()
        .map(|n| match n {
            AnnotationNode::Step { number, .. } => *number,
            _ => 0,
        })
        .collect();
    assert_eq!(numbers, vec![1, 2, 3]);
    assert_eq!(next_number(&s.document), 4);
}

#[test]
fn moving_is_one_step_of_the_history() {
    let mut s = session();
    drag(&mut s, Tool::Rect, at(10.0, 10.0), at(20.0, 20.0));
    s.pick_tool(Tool::Select);
    s.canvas_pointerdown(at(15.0, 15.0), &[false], far());
    assert_eq!(s.drag_way(), Some((at(15.0, 15.0), at(15.0, 15.0))));
    s.canvas_pointermove(at(17.0, 14.0), &by(2.0, -1.0));
    match &s.document.annotations[0] {
        AnnotationNode::Shape { rect: r, .. } => assert_eq!(*r, rect(12.0, 9.0, 22.0, 19.0)),
        other => panic!("{other:?}"),
    }
    // Each move starts from where the drag began.
    s.canvas_pointermove(at(20.0, 14.0), &by(5.0, -1.0));
    assert_eq!(s.drag_way(), Some((at(15.0, 15.0), at(20.0, 14.0))));
    s.canvas_pointerup(
        at(20.0, 14.0),
        false,
        false,
        rect(0.0, 0.0, 1.0, 1.0),
        at(0.0, 0.0),
        false,
        &by(5.0, -1.0),
    );
    assert_eq!(s.drag_way(), None);
    match &s.document.annotations[0] {
        AnnotationNode::Shape { rect: r, .. } => assert_eq!(*r, rect(15.0, 9.0, 25.0, 19.0)),
        other => panic!("{other:?}"),
    }
    s.do_undo();
    match &s.document.annotations[0] {
        AnnotationNode::Shape { rect: r, .. } => assert_eq!(*r, rect(10.0, 10.0, 20.0, 20.0)),
        other => panic!("{other:?}"),
    }
    s.do_undo();
    assert!(s.document.annotations.is_empty());
}

#[test]
fn typing_is_one_step_of_the_history() {
    let mut s = session();
    let id = drag(&mut s, Tool::Text, at(0.0, 0.0), at(50.0, 20.0)).unwrap();
    match s.render_selection(rect(0.0, 0.0, 0.0, 0.0)) {
        Chrome::TextField { rect: r, text } => {
            assert_eq!(r, rect(0.0, 0.0, 50.0, 20.0));
            assert_eq!(text, "");
        }
        other => panic!("{other:?}"),
    }
    for t in ["h", "he", "hey"] {
        s.type_text(t.to_string());
    }
    s.blur_text();
    let text = |s: &Session| match s.find_node(id) {
        Some(AnnotationNode::Text { text, .. }) => text,
        other => panic!("{other:?}"),
    };
    assert_eq!(text(&s), "hey");
    assert!(matches!(s.render_selection(rect(0.0, 0.0, 0.0, 0.0)), Chrome::Handles { .. }));
    s.do_undo();
    assert_eq!(text(&s), "");
    s.do_redo();
    assert_eq!(text(&s), "hey");
    // An edit without typing leaves the history alone.
    s.pick_tool(Tool::Select);
    s.double_click(at(10.0, 10.0), &[false]);
    s.blur_text();
    s.do_undo();
    assert_eq!(text(&s), "");
}

#[test]
fn deleting_and_escaping() {
    let mut s = session();
    drag(&mut s, Tool::Blur, at(0.0, 0.0), at(9.0, 9.0));
    s.pick_tool(Tool::Select);
    s.canvas_pointerdown(at(5.0, 5.0), &[false], far());
    s.canvas_pointerup(at(5.0, 5.0), true, true, rect(0.0, 0.0, 1.0, 1.0), at(0.0, 0.0), true, &stay);
    assert!(s.selected.is_some());
    s.global_keydown(&PressedKey::Named(KeyCode::Escape), held(false, false));
    assert!(s.selected.is_none());
    s.canvas_pointerdown(at(5.0, 5.0), &[false], far());
    s.global_keydown(&PressedKey::Named(KeyCode::Delete), held(false, false));
    assert!(s.document.annotations.is_empty());
    s.do_undo();
    assert_eq!(s.document.annotations.len(), 1);
}

#[test]
fn drags_are_previewed() {
    let mut s = session();
    assert_eq!(s.render_pending(), DragMark::Nothing);
    s.pick_tool(Tool::Arrow);
    s.canvas_pointerdown(at(1.0, 2.0), &[], far());
    s.canvas_pointermove(at(3.0, 4.0), &stay);
    assert_eq!(
        s.render_pending(),
        DragMark::Line {
            start: at(1.0, 2.0),
            end: at(3.0, 4.0),
            color: Rgba::new(220, 38, 38, 255),
            width: px(4.0)
        }
    );
    s.tool = Tool::Ellipse;
    assert!(matches!(s.render_pending(), DragMark::Ellipse { .. }));
    s.tool = Tool::Blur;
    assert_eq!(
        s.render_pending(),
        DragMark::Box {
            rect: rect(1.0, 2.0, 3.0, 4.0),
            color: Rgba::new(37, 99, 235, 255),
            width: px(1.5)
        }
    );
}

#[test]
fn closing_asks_about_unsaved_changes() {
    let mut s = session();
    assert!(matches!(s.request_close(), CloseAction::Close));
    drag(&mut s, Tool::Rect, at(0.0, 0.0), at(9.0, 9.0));
    assert!(!matches!(s.request_close(), CloseAction::Close));
    assert!(s.close_prompt);
    s.cancel_close();
    assert!(!s.close_prompt);
    s.saved("C:\\out.png".to_string());
    assert!(!s.dirty);
    assert!(s.shown_path().is_some());
    assert!(matches!(s.request_close(), CloseAction::Close));
    let mut f = CopyFlash::new();
    let first = f.copied();
    let second = f.copied();
    assert_ne!(first, second);
}

#[test]
fn properties_can_be_read_and_changed() {
    let mut s = session();
    let id = drag(&mut s, Tool::Arrow, at(0.0, 0.0), at(9.0, 9.0)).unwrap();
    let node = s.find_node(id).unwrap();
    assert!(selection_properties(&node).contains(&Field::ArrowHead));
    assert!(!selection_properties(&node).contains(&Field::StepNumber));
    assert_eq!(kind_label(&node), "Arrow");
    assert!(text_preview(&node).is_none());
    assert!(matches!(field_value(&node, Field::ArrowShadow), Some(FieldValue::Flag(true))));
    assert!(field_value(&node, Field::BlurRadius).is_none());
    let plain = edit_node(&node, Field::ArrowShadow, &FieldEdit::Flag(false));
    assert!(matches!(field_value(&plain, Field::ArrowShadow), Some(FieldValue::Flag(false))));
    assert_eq!(plain.id(), id);
    s.edit_property(id, Field::ArrowColor, &FieldEdit::Color(Rgba::new(1, 2, 3, 255)));
    match s.find_node(id).unwrap() {
        AnnotationNode::Arrow { color, .. } => assert_eq!(color, Rgba::new(1, 2, 3, 255)),
        other => panic!("{other:?}"),
    }
    s.do_undo();
    match s.find_node(id).unwrap() {
        AnnotationNode::Arrow { color, .. } => assert_eq!(color, Rgba::new(220, 38, 38, 255)),
        other => panic!("{other:?}"),
    }
}

#[test]
fn document_effects_are_toggled_through_the_history() {
    let mut s = session();
    s.toggle_edge();
    assert!(s.document.edge_effect.is_some());
    s.edit_edge_effect(EdgeEdit::Left(true));
    let e = s.document.edge_effect.unwrap();
    assert!(edges_shown(e).2);
    assert_eq!(edit_edge(e, EdgeEdit::Depth(px(33.0))).depth, px(33.0));
    s.toggle_border();
    assert!(s.document.border.is_some());
    s.do_undo();
    s.do_undo();
    s.do_undo();
    assert!(s.document.border.is_none() && s.document.edge_effect.is_none());
}

#[test]
fn the_topmost_annotation_is_hit() {
    let mut s = session();
    let a = drag(&mut s, Tool::Rect, at(0.0, 0.0), at(20.0, 20.0)).unwrap();
    let b = drag(&mut s, Tool::Blur, at(10.0, 10.0), at(30.0, 30.0)).unwrap();
    let near = [false, false];
    assert_eq!(hit_test(&s.document.annotations, at(15.0, 15.0), &near), Some(b));
    assert_eq!(hit_test(&s.document.annotations, at(5.0, 5.0), &near), Some(a));
    assert_eq!(hit_test(&s.document.annotations, at(50.0, 5.0), &near), None);
    let node = s.find_node(a).unwrap();
    let h = handle_at(&node, NearHandles { se: true, ..far() });
    assert_eq!(h, Some(Handle::SE));
    assert_eq!(handle_at(&node, far()), None);
}

#[test]
fn resizing_keeps_the_opposite_edges() {
    let b = rect(10.0, 10.0, 30.0, 30.0);
    let moved = rect(15.0, 16.0, 35.0, 36.0);
    assert_eq!(resize_rect(b, moved, Handle::SE), rect(10.0, 10.0, 35.0, 36.0));
    assert_eq!(resize_rect(b, moved, Handle::N), rect(10.0, 16.0, 30.0, 30.0));
    assert_eq!(drag_rect(b, moved, Handle::W), rect(15.0, 10.0, 30.0, 30.0));
    assert_eq!(drag_rect(b, moved, Handle::Body), moved);
    let handles = rect_handles(b, at(20.0, 20.0));
    assert_eq!(handles.len(), 8);
    assert!(handles.contains(&(Handle::NE, at(30.0, 10.0))));
    assert!(handles.contains(&(Handle::S, at(20.0, 30.0))));
}

#[test]
fn colours_and_labels_go_both_ways() {
    let c = Rgba::new(0, 171, 255, 9);
    assert_eq!(color_to_hex(c), "#00abff");
    assert_eq!(hex_to_color("#00ABff", 9), Some(c));
    assert_eq!(hex_to_color("#12345", 0), None);
    assert_eq!(hex_to_color("#12345g", 0), None);
    assert!(!palette().is_empty());
    for h in [
        ArrowHeadStyle::FilledTriangle,
        ArrowHeadStyle::OutlineTriangle,
        ArrowHeadStyle::LineOnly,
        ArrowHeadStyle::NoHead,
        ArrowHeadStyle::DoubleEnded,
    ] {
        assert_eq!(head_from_label(head_label(h)), Some(h));
    }
    for p in [
        CaptureInfoPosition::TopLeft,
        CaptureInfoPosition::TopRight,
        CaptureInfoPosition::BottomLeft,
        CaptureInfoPosition::BottomRight,
    ] {
        assert_eq!(position_from_label(position_label(p)), Some(p));
    }
    for l in [TextListStyle::Plain, TextListStyle::Bullet, TextListStyle::Numbered] {
        assert_eq!(list_from_label(list_label(l)), l);
    }
    assert_eq!(head_from_label("?"), None);
}

#[test]
fn field_lists_toggle() {
    let list = vec![FieldKind::Timestamp];
    let more = toggle_field(&list, FieldKind::OsVersion, true);
    assert_eq!(more, vec![FieldKind::Timestamp, FieldKind::OsVersion]);
    assert_eq!(toggle_field(&more, FieldKind::OsVersion, true), more);
    assert_eq!(toggle_field(&more, FieldKind::Timestamp, false), vec![FieldKind::OsVersion]);
}

#[test]
fn sliders_stay_within_their_limits() {
    let mut st = ToolStyle::from_settings(&Settings::default());
    assert!(st.arrow.shadow);
    st.arrow.set_thickness(px(1000.0));
    let most = f32::from_bits(st.arrow.thickness.bits);
    assert!(most < 1000.0);
    st.arrow.set_thickness(px(-5.0));
    assert!(f32::from_bits(st.arrow.thickness.bits) < most);
    st.step.type_next_number("41");
    assert_eq!(st.step.next_number, 41);
    st.step.type_next_number("x");
    assert_eq!(st.step.next_number, 41);
    assert!(!st.shape.is_filled());
    st.shape.set_filled(true);
    assert!(st.shape.is_filled());
}

#[test]
fn colours_in_style_sheets_have_three_places() {
    for a in 0..=255u8 {
        let css = rgba_to_css(Rgba::new(1, 22, 255, a));
        assert_eq!(css, format!("rgba(1, 22, 255, {:.3})", a as f32 / 255.0));
    }
}

#[test]
fn arrows_have_the_parts_of_their_style() {
    let (a, b) = (at(0.0, 0.0), at(10.0, 0.0));
    let filled = arrow_plan(a, b, None, ArrowHeadStyle::FilledTriangle);
    assert_eq!(filled.heads.len(), 1);
    assert_eq!(filled.heads[0].tip, b);
    assert_eq!(filled.paint, HeadPaint::Filled);
    let none = arrow_plan(a, b, None, ArrowHeadStyle::NoHead);
    assert!(none.heads.is_empty());
    assert_eq!((none.start_setback, none.end_setback), (Setback::Nothing, Setback::Nothing));
    assert_eq!(arrow_plan(a, b, None, ArrowHeadStyle::DoubleEnded).heads.len(), 2);
    let curved = arrow_plan(a, b, Some(at(5.0, 9.0)), ArrowHeadStyle::LineOnly);
    assert_eq!(curved.heads[0].from, at(5.0, 9.0));
    assert_eq!(curved.paint, HeadPaint::Chevron);
    assert_eq!(dash_quarters(ArrowLineStyle::Solid), None);
    assert_eq!(dash_quarters(ArrowLineStyle::Dashed), Some((10, 6)));
    assert_eq!(text_anchor(TextAlign::Center), "middle");
    assert_eq!(tail_edge(px(-5.0), px(4.0)), Edge::Left);
    assert_eq!(tail_edge(px(1.0), px(4.0)), Edge::Bottom);
    assert_eq!(tail_edge(px(1.0), px(-4.0)), Edge::Top);
}

fn typed_into_a_new_box(text: &str) -> (Session, NodeId) {
    let mut s = session();
    let id = drag(&mut s, Tool::Text, at(0.0, 0.0), at(50.0, 20.0)).unwrap();
    s.type_text(text.to_string());
    (s, id)
}

fn box_text(s: &Session, id: NodeId) -> String {
    match s.find_node(id) {
        Some(AnnotationNode::Text { text, .. }) => text,
        other => panic!("{other:?}"),
    }
}

#[test]
fn a_click_elsewhere_ends_typing_in_the_history() {
    for tool in [Tool::Select, Tool::Arrow] {
        let (mut s, id) = typed_into_a_new_box("hey");
        s.pick_tool(tool);
        s.canvas_pointerdown(at(90.0, 90.0), &[false], far());
        assert!(s.editing.is_none());
        assert_eq!(box_text(&s, id), "hey");
        s.do_undo();
        assert_eq!(box_text(&s, id), "");
        s.do_redo();
        assert_eq!(box_text(&s, id), "hey");
    }
    let (mut s, id) = typed_into_a_new_box("hey");
    s.pick_tool(Tool::Step);
    assert!(s.canvas_pointerdown(at(90.0, 90.0), &[false], far()).is_some());
    assert_eq!(s.document.annotations.len(), 2);
    s.do_undo();
    assert_eq!(s.document.annotations.len(), 1);
    assert_eq!(box_text(&s, id), "hey");
    s.do_undo();
    assert_eq!(box_text(&s, id), "");
}

#[test]
fn escape_ends_typing_in_the_history() {
    let (mut s, id) = typed_into_a_new_box("hey");
    s.global_keydown(&PressedKey::Named(KeyCode::Escape), held(false, false));
    assert!(s.editing.is_none());
    assert_eq!(box_text(&s, id), "hey");
    s.do_undo();
    assert_eq!(box_text(&s, id), "");
}

#[test]
fn properties_offer_their_choices() {
    assert_eq!(options_of(Field::ArrowLine), ["Solid", "Dashed", "Dotted"]);
    assert_eq!(options_of(Field::ArrowHead), ["Filled", "Outline", "Line", "None", "Double"]);
    assert_eq!(options_of(Field::TextAlignment), ["Left", "Center", "Right"]);
    assert_eq!(options_of(Field::TextList), ["None", "Bullet", "Numbered"]);
    assert!(options_of(Field::ArrowColor).is_empty());
    let (s, id) = typed_into_a_new_box("hey");
    let node = s.find_node(id).unwrap();
    for field in [Field::TextAlignment, Field::TextList] {
        for choice in options_of(field) {
            let after = edit_node(&node, field, &FieldEdit::Choice(choice.to_string()));
            match field_value(&after, field) {
                Some(FieldValue::Choice(t)) => assert_eq!(t, choice),
                other => panic!("{other:?}"),
            }
        }
    }
}

#[test]
fn a_drag_that_does_not_move_puts_the_annotation_back() {
    let mut s = session();
    drag(&mut s, Tool::Rect, at(10.0, 10.0), at(20.0, 20.0));
    s.pick_tool(Tool::Select);
    s.canvas_pointerdown(at(15.0, 15.0), &[false], far());
    s.canvas_pointermove(at(40.0, 40.0), &by(25.0, 25.0));
    s.canvas_pointerup(
        at(15.0, 15.0),
        false,
        false,
        rect(0.0, 0.0, 1.0, 1.0),
        at(0.0, 0.0),
        true,
        &by(0.0, 0.0),
    );
    match &s.document.annotations[0] {
        AnnotationNode::Shape { rect: r, .. } => assert_eq!(*r, rect(10.0, 10.0, 20.0, 20.0)),
        other => panic!("{other:?}"),
    }
    s.do_undo();
    assert!(s.document.annotations.is_empty());
}

#[test]
fn resizing_drags_one_handle() {
    let mut s = session();
    let id = drag(&mut s, Tool::Rect, at(10.0, 10.0), at(20.0, 20.0)).unwrap();
    s.pick_tool(Tool::Select);
    s.selected = Some(id);
    s.canvas_pointerdown(at(15.0, 15.0), &[false], NearHandles { se: true, ..far() });
    s.canvas_pointermove(at(19.0, 18.0), &by(4.0, 3.0));
    s.canvas_pointerup(
        at(19.0, 18.0),
        false,
        false,
        rect(0.0, 0.0, 1.0, 1.0),
        at(0.0, 0.0),
        false,
        &by(4.0, 3.0),
    );
    match &s.document.annotations[0] {
        AnnotationNode::Shape { rect: r, .. } => assert_eq!(*r, rect(10.0, 10.0, 24.0, 23.0)),
        other => panic!("{other:?}"),
    }
    s.do_undo();
    match &s.document.annotations[0] {
        AnnotationNode::Shape { rect: r, .. } => assert_eq!(*r, rect(10.0, 10.0, 20.0, 20.0)),
        other => panic!("{other:?}"),
    }
}

#[test]
fn transforms_of_single_annotations() {
    let id = NodeId { value: 5 };
    let step = AnnotationNode::Step {
        id,
        center: at(10.0, 10.0),
        radius: px(6.0),
        number: 1,
        fill: Rgba::new(1, 1, 1, 255),
        text_color: Rgba::new(2, 2, 2, 255),
    };
    let radius = |n: &AnnotationNode| match n {
        AnnotationNode::Step { radius, center, .. } => (*center, *radius),
        other => panic!("{other:?}"),
    };
    let grown = resize_node(&step, &by(3.0, 50.0), Handle::E);
    assert_eq!(radius(&grown), (at(10.0, 10.0), px(9.0)));
    let least = resize_node(&step, &by(-30.0, 0.0), Handle::E);
    assert_eq!(radius(&least), (at(10.0, 10.0), px(2.0)));
    assert_eq!(radius(&resize_node(&step, &by(3.0, 3.0), Handle::N)), (at(10.0, 10.0), px(6.0)));
    let moved = translate_node(&step, &by(1.0, -2.0));
    assert_eq!(radius(&moved), (at(11.0, 8.0), px(6.0)));
}
