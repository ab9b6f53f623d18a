use grabit::capture::{CaptureMetadata, Rect};
use grabit::clock::CivilTime;
use grabit::codec::encode_png;
use grabit::editor::app::{
    CloseAnswer, EditorApp, ExportStep, InspectorTab, PickHints, Shortcuts,
};
use grabit::editor::document::{
    AnnotationNode, CaptureInfoPosition, CaptureInfoStyle, Document, FieldKind, NodeId,
    SerializedCursor, StampSource, DOCUMENT_SCHEMA_VERSION,
};
use grabit::editor::gif_app::{
    build_thumb_uri, finish_export, percent, Cleanup, ExportProgress, ExportStatus, GifEditor,
    Preview, Recording,
};
use grabit::editor::preset_panel::{
    describe, form_heading, set_delay, set_side, settle_hotkey, PanelWork, PresetAction, PresetPanel,
};
use grabit::editor::preview::{
    cursor_changed, draw_node_preview, draw_selection_handles, CaptureInfoKey, Mark, SelectionMark,
};
use grabit::editor::flatten::Part;
use grabit::editor::rasterize::{BorderMetrics, TornDepths};
use grabit::editor::quick_styles::{
    style_kind_to_tool, tool_to_style_kind, QuickStyle, StyleStore, StyleToolKind, StyleValues,
};
use grabit::editor::tools::cursor_edit::apply_rect;
use grabit::editor::tools::selection::{Handle, NearHandles, SelectionTarget};
use grabit::editor::tools::Tool;
use grabit::history::{
    age, build_thumb, card_line, cards, clean_path, copied_message, file_kind, human_size,
    path_copied_message, relative_time, scan, Age, Found, Kind, Shot, MAX_ENTRIES,
};
use grabit::image::RgbaImage;
use grabit::presets::{Preset, PresetStore};
use grabit::px::{Bounds, Point, Px, Rgba};

fn px(v: f32) -> Px {
    Px { bits: v.to_bits() }
}

fn at(x: f32, y: f32) -> Point {
    Point { x: px(x), y: px(y) }
}

fn rect(a: f32, b: f32, c: f32, d: f32) -> Bounds {
    Bounds { min_x: px(a), min_y: px(b), max_x: px(c), max_y: px(d) }
}

fn picture() -> RgbaImage {
    let mut img = RgbaImage::from_pixel(3, 2, Rgba::new(0, 0, 0, 255));
    img.put_pixel(2, 0, Rgba::new(200, 0, 0, 255));
    img
}

fn document() -> Document {
    Document {
        schema_version: DOCUMENT_SCHEMA_VERSION,
        id: NodeId { value: 1 },
        base_png: encode_png(&picture()).unwrap(),
        base_width: 3,
        base_height: 2,
        cursor: Some(SerializedCursor { png: vec![1, 2], width: 4, height: 4, x: 1, y: 1 }),
        annotations: Vec::new(),
        metadata: CaptureMetadata {
            captured_at: CivilTime {
                year: 2024,
                month: 1,
                day: 1,
                hour: 0,
                minute: 0,
                second: 0,
                nanosecond: 0,
            },
            foreground_title: None,
            foreground_process: None,
            os_version: "t".into(),
            monitors: vec![],
            capture_rect: Rect { x: 0, y: 0, width: 2, height: 2 },
        },
        edge_effect: None,
        border: None,
    }
}

fn far() -> NearHandles {
    NearHandles { nw: false, n: false, ne: false, e: false, se: false, s: false, sw: false, w: false }
}

fn hints() -> PickHints {
    PickHints {
        arrow_start: false,
        arrow_end: false,
        arrow_mid: false,
        tail: false,
        handles: far(),
        circle: rect(0.0, 0.0, 0.0, 0.0),
        cursor_box: rect(50.0, 50.0, 54.0, 54.0),
    }
}

fn by(dx: f32, dy: f32) -> impl Fn(Point) -> Point {
    move |p: Point| at(f32::from_bits(p.x.bits) + dx, f32::from_bits(p.y.bits) + dy)
}

/// The middle of a box and half its sides.
fn middle(b: Bounds) -> (Point, Px, Px) {
    let f = |v: Px| f32::from_bits(v.bits);
    let half = |a: Px, b: Px| px(0.5 * (f(b) - f(a)).abs());
    let c = at(0.5 * (f(b.min_x) + f(b.max_x)), 0.5 * (f(b.min_y) + f(b.max_y)));
    (c, half(b.min_x, b.max_x), half(b.min_y, b.max_y))
}

/// A box in whole pixels.
fn whole(b: Bounds) -> (i32, i32, u32, u32) {
    let f = |v: Px| f32::from_bits(v.bits);
    (
        f(b.min_x).round() as i32,
        f(b.min_y).round() as i32,
        (f(b.max_x) - f(b.min_x)).round() as u32,
        (f(b.max_y) - f(b.min_y)).round() as u32,
    )
}

fn draw(app: &mut EditorApp, tool: Tool, from: Point, to: Point) -> NodeId {
    app.pick_tool(tool);
    let near = vec![false; app.document.annotations.len()];
    app.drag_started(from, &near, hints());
    app.dragged(to, &by(0.0, 0.0), &middle, &whole);
    app.drag_stopped(true, rect(0.0, 0.0, 9.0, 9.0), at(5.0, 5.0)).unwrap()
}

#[test]
fn the_classic_editor_draws_and_undoes() {
    let mut app = EditorApp::new(document());
    assert_eq!(app.inspector_tab, InspectorTab::Document);
    let id = draw(&mut app, Tool::Ellipse, at(1.0, 1.0), at(20.0, 30.0));
    assert_eq!(app.document.annotations[0].id(), id);
    assert!(app.dirty);
    app.undo();
    assert!(app.document.annotations.is_empty());
    app.redo();
    assert_eq!(app.document.annotations.len(), 1);
    let w = app.history_shortcuts(Shortcuts { undo: true, redo: false, rotate: true, save: false, delete: false });
    assert!(app.document.annotations.is_empty() && w.rotate && !w.save);
}

#[test]
fn rotating_turns_the_picture_and_forgets_the_history() {
    let mut app = EditorApp::new(document());
    draw(&mut app, Tool::Rect, at(1.0, 1.0), at(20.0, 30.0));
    let turned = app.rotate_base_cw(picture());
    assert_eq!((turned.width, turned.height), (2, 3));
    assert_eq!(turned.get_pixel(1, 2), Rgba::new(200, 0, 0, 255));
    assert_eq!((app.document.base_width, app.document.base_height), (2, 3));
    assert!(!app.history.can_undo());
    assert_eq!(app.document.annotations.len(), 1);
    let back = app.rotate_base_ccw(turned);
    assert_eq!(back.raw, picture().raw);
}

#[test]
fn exports_are_scaled_to_the_wanted_size() {
    let mut app = EditorApp::new(document());
    let same = app.apply_export_resize(picture());
    assert_eq!(same.raw, picture().raw);
    app.export_size.width = 6;
    app.export_size.height = 0;
    let out = app.apply_export_resize(RgbaImage::from_pixel(3, 2, Rgba::new(9, 9, 9, 255)));
    assert_eq!((out.width, out.height), (6, 1));
    assert_eq!(out.get_pixel(3, 0), Rgba::new(9, 9, 9, 255));
    match app.export_step(picture()) {
        ExportStep::Scale { picture: p, width: 6, height: 1 } => assert_eq!(p.raw, picture().raw),
        other => panic!("{other:?}"),
    }
    app.reset_export_size();
    assert_eq!((app.export_size.width, app.export_size.height), (3, 2));
    match app.export_step(picture()) {
        ExportStep::AsIs(p) => assert_eq!(p.raw, picture().raw),
        other => panic!("{other:?}"),
    }
    app.export_size.lock_aspect = false;
    app.set_export_width(40_000, 1);
    app.set_export_height(-3, 1);
    assert_eq!((app.export_size.width, app.export_size.height), (32768, 1));
}

#[test]
fn dragging_the_cursor_is_one_step() {
    let mut app = EditorApp::new(document());
    app.pick_tool(Tool::Select);
    app.click_select(at(52.0, 52.0), &[], rect(50.0, 50.0, 54.0, 54.0));
    assert_eq!(app.selection, Some(SelectionTarget::Cursor));
    app.drag_started(at(52.0, 52.0), &[], hints());
    app.dragged(at(53.0, 52.0), &by(1.0, 0.0), &middle, &whole);
    app.dragged(at(54.0, 52.0), &by(2.0, 0.0), &middle, &whole);
    app.drag_stopped(true, rect(0.0, 0.0, 1.0, 1.0), at(0.0, 0.0));
    assert_eq!(app.document.cursor.as_ref().unwrap().x, 52);
    app.undo();
    assert_eq!(app.document.cursor.as_ref().unwrap().x, 1);
    app.delete_shortcut(true);
    assert!(app.document.cursor.is_none());
}

#[test]
fn closing_the_classic_editor() {
    let mut app = EditorApp::new(document());
    assert!(!app.close_requested());
    draw(&mut app, Tool::Rect, at(1.0, 1.0), at(20.0, 30.0));
    assert!(app.close_requested());
    assert!(!app.answer_close(CloseAnswer::Cancel, Ok(String::new())));
    assert!(app.close_requested());
    assert!(app.answer_close(CloseAnswer::Discard, Ok(String::new())));
}

#[test]
fn previews_show_what_each_annotation_has() {
    let stamp = AnnotationNode::Stamp {
        id: NodeId { value: 3 },
        source: StampSource::Builtin { name: "star".into() },
        rect: rect(0.0, 0.0, 9.0, 9.0),
    };
    let marks = draw_node_preview(&stamp);
    assert_eq!(marks.len(), 2);
    assert!(matches!(&marks[1], Mark::Text { text, .. } if text == "\u{2605} star"));
    let step = AnnotationNode::Step {
        id: NodeId { value: 4 },
        center: at(5.0, 5.0),
        radius: px(3.0),
        number: 12,
        fill: Rgba::new(201, 100, 50, 255),
        text_color: Rgba::new(1, 1, 1, 255),
    };
    match &draw_node_preview(&step)[..] {
        [Mark::Disc { rim, .. }, Mark::Text { text, .. }] => {
            assert_eq!(*rim, Rgba::new(100, 50, 25, 255));
            assert_eq!(text, "12");
        }
        other => panic!("{other:?}"),
    }
    let blur = AnnotationNode::Blur { id: NodeId { value: 5 }, rect: rect(0.0, 0.0, 9.0, 9.0), radius_px: px(3.0) };
    assert!(matches!(&draw_node_preview(&blur)[1], Mark::Text { text, .. } if text == "BLUR"));
    let callout = AnnotationNode::Callout {
        id: NodeId { value: 6 },
        rect: rect(0.0, 0.0, 9.0, 9.0),
        tail: at(4.0, 20.0),
        text: "note".into(),
        fill: Rgba::new(1, 1, 1, 255),
        stroke: Rgba::new(2, 2, 2, 255),
        stroke_width: px(2.0),
        text_color: Rgba::new(3, 3, 3, 255),
        text_size: px(12.0),
    };
    assert_eq!(draw_node_preview(&callout).len(), 3);
    let marks = draw_selection_handles(rect(0.0, 0.0, 9.0, 9.0), at(4.5, 4.5), Some(&callout));
    assert_eq!(marks.len(), 10);
    assert_eq!(marks[9], SelectionMark::TailDot(at(4.0, 20.0)));
    assert_eq!(draw_selection_handles(rect(0.0, 0.0, 9.0, 9.0), at(4.5, 4.5), None).len(), 9);
}

#[test]
fn kept_pictures_are_made_anew_when_they_change() {
    let style = CaptureInfoStyle::default();
    let a = CaptureInfoKey::new(&vec![FieldKind::Timestamp], CaptureInfoPosition::TopLeft, style);
    let b = CaptureInfoKey::new(&vec![FieldKind::Timestamp], CaptureInfoPosition::TopLeft, style);
    assert!(a.same(&b));
    let c = CaptureInfoKey::new(&vec![], CaptureInfoPosition::TopLeft, style);
    assert!(!a.same(&c));
    let cursor = SerializedCursor { png: vec![1, 2], width: 4, height: 4, x: 0, y: 0 };
    assert!(cursor_changed(None, &cursor));
    assert!(!cursor_changed(Some((2, 4, 4)), &cursor));
    assert!(cursor_changed(Some((2, 4, 5)), &cursor));
}

fn panel() -> PresetPanel {
    PresetPanel::new(PresetStore::load(vec![
        Some(Preset { name: "A".into(), hotkey: "Ctrl+1".into(), ..Preset::default() }),
        Some(Preset { name: "B".into(), ..Preset::default() }),
    ]))
}

#[test]
fn presets_are_duplicated_without_their_hotkey() {
    let mut p = panel();
    assert!(matches!(p.apply_preset_action(PresetAction::Duplicate(0)), PanelWork::Idle));
    let (idx, draft) = p.draft.as_ref().unwrap();
    assert_eq!(*idx, usize::MAX);
    assert_eq!((draft.name.as_str(), draft.hotkey.as_str()), ("A copy", ""));
    assert_eq!(form_heading(*idx), "New preset");
    p.apply_preset_action(PresetAction::Edit(1));
    assert_eq!(p.draft.as_ref().unwrap().0, 1);
    assert_eq!(form_heading(1), "Edit preset");
    p.cancel_draft();
    p.apply_preset_action(PresetAction::Edit(9));
    assert!(p.draft.is_none());
    p.new_draft();
    assert_eq!(p.draft.as_ref().unwrap().1.name, "Untitled");
}

#[test]
fn deleting_a_preset_names_its_file() {
    let mut p = panel();
    match p.apply_preset_action(PresetAction::Delete(0)) {
        PanelWork::DeleteFile(slug) => assert_eq!(slug, "a"),
        other => panic!("{other:?}"),
    }
    assert_eq!(p.status, "Deleted preset \"A\"");
    assert!(p.dirty);
    assert_eq!(p.store.presets.len(), 1);
    assert!(matches!(p.apply_preset_action(PresetAction::Delete(5)), PanelWork::Idle));
    match p.apply_preset_action(PresetAction::CaptureNow("B".into())) {
        PanelWork::QueueCapture(n) => assert_eq!(n, "B"),
        other => panic!("{other:?}"),
    }
    p.capture_queued("B", None);
    assert_eq!(p.status, "Capture queued: B (run this hotkey from the tray to confirm).");
    p.capture_queued("B", Some("disk".into()));
    assert_eq!(p.status, "Capture request failed: disk");
}

#[test]
fn drafts_are_checked_and_written() {
    let mut p = panel();
    let bad = Preset { name: " ".into(), ..Preset::default() };
    assert!(matches!(p.save_preset_draft(0, bad), PanelWork::Idle));
    assert_eq!(p.status, "Preset name cannot be empty.");
    assert!(p.draft.is_some());
    let bad = Preset { name: "x".into(), hotkey: "Ctrl+".into(), ..Preset::default() };
    p.draft = Some((0, bad));
    assert!(matches!(p.save_clicked(), PanelWork::Idle));
    assert_eq!(p.status, "Invalid hotkey 'Ctrl+': hotkey 'Ctrl+' has no key component");
    assert!(p.draft.is_none());
    let renamed = Preset { name: "Z z".into(), ..Preset::default() };
    match p.save_preset_draft(0, renamed) {
        PanelWork::WriteFile { preset, stale } => {
            assert_eq!(preset.slug(), "z-z");
            assert_eq!(stale.as_deref(), Some("a"));
        }
        other => panic!("{other:?}"),
    }
    let same = Preset { name: "a!".into(), ..Preset::default() };
    assert!(matches!(p.save_preset_draft(0, same), PanelWork::WriteFile { stale: None, .. }));
    p.draft_written("Z z", Some("full".into()), PresetStore::default());
    assert_eq!(p.status, "Save failed: full");
    p.draft_written("Z \"z\"", None, PresetStore::default());
    assert_eq!(p.status, "Saved preset \"Z \\\"z\\\"\"");
    assert!(p.dirty && p.store.presets.is_empty());
}

#[test]
fn preset_forms_settle_their_fields() {
    let mut d = Preset { hotkey: "shift+ctrl+x".into(), ..Preset::default() };
    assert!(settle_hotkey(&mut d).is_none());
    assert_eq!(d.hotkey, "Ctrl+Shift+X");
    d.hotkey = "nope".into();
    assert_eq!(settle_hotkey(&mut d).unwrap().message(), "unsupported key 'nope'");
    assert_eq!(d.hotkey, "nope");
    d.hotkey = "  ".into();
    assert!(settle_hotkey(&mut d).is_none());
    assert_eq!((set_side(0), set_side(7), set_delay(-4)), (1, 7, 0));
    assert_eq!((set_side(32768), set_side(32769), set_side(i32::MAX)), (32768, 32768, 32768));
    assert_eq!((set_delay(3000), set_delay(60_000), set_delay(60_001)), (3000, 60_000, 60_000));
    let line = describe(&Preset { delay_ms: 3000, include_cursor: true, ..Preset::default() });
    assert_eq!(line, "Region  \u{b7}  delay 3000ms  \u{b7}  cursor: on  \u{b7}  Save only");
}

#[test]
fn quick_styles_are_stored_and_applied() {
    let mut app = EditorApp::new(document());
    let mut store = StyleStore { styles: Vec::new() };
    app.pick_tool(Tool::Arrow);
    app.knobs.color = Rgba::new(1, 2, 3, 255);
    app.knobs.blur_radius = px(30.0);
    assert!(app.save_style(&mut store, "  ").is_none());
    assert_eq!(app.status, "Style name cannot be empty.");
    let kind = app.save_style(&mut store, " mine ").unwrap();
    assert_eq!(kind, StyleToolKind::Arrow);
    assert_eq!(app.style_stored(" mine ".into(), kind, None), "");
    assert_eq!(app.status, "Saved style \" mine \" for Arrow");
    assert_eq!(app.style_stored("x".into(), kind, Some("full".into())), "x");
    assert_eq!(app.status, "Styles save failed: full");
    app.knobs.color = Rgba::new(9, 9, 9, 255);
    app.knobs.blur_radius = px(1.0);
    app.pick_tool(Tool::Select);
    app.apply_style(&store, StyleToolKind::Arrow, "mine");
    assert_eq!(app.knobs.color, Rgba::new(1, 2, 3, 255));
    assert_eq!(app.knobs.blur_radius, px(1.0));
    assert_eq!(app.tool, Tool::Arrow);
    assert_eq!(app.status, "Applied style \"mine\"");
    app.pick_tool(Tool::Select);
    assert!(app.save_style(&mut store, "other").is_none());
    assert_eq!(store.for_tool(StyleToolKind::Arrow).len(), 1);
    assert!(store.for_tool(StyleToolKind::Text).is_empty());
}

#[test]
fn a_style_of_the_same_name_is_replaced() {
    let style = |r: f32| QuickStyle {
        name: "n".into(),
        tool: StyleToolKind::Blur,
        values: StyleValues { blur_radius: Some(px(r)), ..StyleValues::default() },
    };
    let mut store = StyleStore { styles: Vec::new() };
    store.upsert(style(1.0));
    store.upsert(style(2.0));
    assert_eq!(store.styles.len(), 1);
    let found = store.find(StyleToolKind::Blur, "n").unwrap();
    assert_eq!(found.values.blur_radius, Some(px(2.0)));
    assert!(store.find(StyleToolKind::Step, "n").is_none());
    store.remove(StyleToolKind::Blur, "n");
    assert!(store.styles.is_empty());
    for k in StyleToolKind::ALL {
        assert_eq!(style_kind_to_tool(k).and_then(tool_to_style_kind), Some(k));
    }
    assert_eq!(tool_to_style_kind(Tool::Select), None);
    assert_eq!(tool_to_style_kind(Tool::CaptureInfo), None);
}

fn recording(n: usize) -> GifEditor {
    GifEditor::new(
        Recording {
            frames: (0..n).map(|i| (format!("f{i}.png"), 40u32)).collect(),
            fps_target: 100,
            loop_count: 2,
        },
        true,
    )
}

#[test]
fn playback_skips_deleted_frames_and_wraps() {
    let mut g = recording(4);
    assert_eq!(g.fps, 60);
    assert!(g.play_clicked());
    assert_eq!(g.playback_wait(true), Some(16));
    assert_eq!(g.playback_wait(false), None);
    g.toggle_deleted(1);
    g.toggle_deleted(3);
    assert!(g.playback_tick(true));
    assert_eq!(g.current, 2);
    g.advance_to_next_active();
    assert_eq!(g.current, 0);
    g.toggle_deleted(0);
    g.toggle_deleted(2);
    g.advance_to_next_active();
    assert_eq!(g.current, 0);
    assert!(!g.play_clicked());
    assert!(!g.playback_tick(true));
    g.toggle_deleted(9);
    assert_eq!((g.active(), g.deleted()), (0, 4));
    g.type_fps("1000");
    assert_eq!(g.fps, 60);
    g.type_fps("10");
    g.play_clicked();
    assert_eq!(g.playback_wait(true), Some(100));
}

#[test]
fn trimming_keeps_what_lies_between_the_marks() {
    let mut g = recording(5);
    g.trim_to_selection();
    assert_eq!(g.active(), 5);
    g.go_last();
    g.scrub(3);
    g.set_in();
    assert_eq!(g.marks_line(), "in: 3   out: \u{2014}");
    g.scrub(1);
    g.set_out();
    assert_eq!(g.classes(1), "frame current out-mark");
    g.trim_to_selection();
    let kept: Vec<bool> = g.frames.iter().map(|f| !f.deleted).collect();
    assert_eq!(kept, vec![false, true, true, true, false]);
    assert_eq!(g.classes(0), "frame deleted");
    assert_eq!(g.classes(3), "frame in-mark");
    assert_eq!(g.total_ms(), 120);
    assert_eq!(g.title_line("0.1"), "5 frames \u{2022} 3 active \u{2022} 0.1s");
    assert_eq!(g.position_line(), "Frame 2 / 5");
    g.clear_marks();
    assert!(g.trim_in.is_none() && g.trim_out.is_none());
    g.go_first();
    assert_eq!(g.current, 0);
}

#[test]
fn exports_hold_the_kept_frames() {
    let mut g = recording(3);
    g.toggle_deleted(1);
    g.type_fps("25");
    g.type_loop_count("7");
    let job = g.start_export().unwrap();
    let paths: Vec<&str> = job.frames.iter().map(|f| f.png_path.as_str()).collect();
    assert_eq!(paths, vec!["f0.png", "f2.png"]);
    assert!(job.frames.iter().all(|f| f.delay_ms == 40));
    assert_eq!(job.loop_count, 7);
    assert!(job.copy_to_clipboard && g.exporting());
    assert!(g.export_progress(ExportProgress::Tick { done: 1, total: 2 }));
    assert!(!g.export_progress(ExportProgress::Done("out.gif".into())));
    assert!(matches!(&g.export_status, ExportStatus::Done(p) if p == "out.gif"));
    assert!(!g.export_progress(ExportProgress::Failed("bad".into())));
    g.dismiss();
    assert!(matches!(g.export_status, ExportStatus::Idle));
    g.toggle_deleted(0);
    g.toggle_deleted(2);
    assert!(g.start_export().is_none());
    assert!(matches!(&g.export_status, ExportStatus::Failed(m) if m == "Nothing to export \u{2014} all frames are deleted."));
    assert_eq!((percent(1, 3), percent(5, 0), percent(9, 3)), (33, 0, 100));
}

#[test]
fn a_recording_goes_only_after_it_was_encoded() {
    assert!(finish_export(false, true).is_empty());
    assert_eq!(finish_export(true, false), vec![Cleanup::RemoveSpool, Cleanup::RemoveSidecar]);
    assert_eq!(finish_export(true, true)[0], Cleanup::CopyFile);
}

#[test]
fn frames_are_shown_when_they_are_decoded() {
    let mut g = recording(2);
    assert!(matches!(g.preview(), Preview::Loading));
    let uri = build_thumb_uri(&encode_png(&picture()).unwrap());
    assert!(uri.is_some());
    g.frame_decoded(0, uri.clone());
    g.frame_decoded(7, uri.clone());
    g.frame_decoded(0, None);
    assert!(matches!(g.preview(), Preview::Picture(u) if Some(&u) == uri.as_ref()));
    assert!(matches!(recording(0).preview(), Preview::NoFrames));
    assert!(build_thumb_uri(&vec![1]).is_none());
}

fn found(path: &str, ext: &str, time: Option<i128>) -> Found {
    Found {
        path: path.into(),
        extension: Some(ext.into()),
        is_file: true,
        meta: Some((10, time)),
    }
}

#[test]
fn the_history_lists_the_newest_pictures_first() {
    let list = scan(vec![
        found("a", "png", Some(5)),
        found("b", "GIF", Some(9)),
        found("c", "txt", Some(20)),
        found("d", "PNG", None),
        found("e", "png", Some(5)),
        Found { is_file: false, ..found("f", "png", Some(30)) },
        Found { meta: None, ..found("g", "png", Some(30)) },
        Found { extension: None, ..found("h", "png", Some(30)) },
    ]);
    let paths: Vec<&str> = list.iter().map(|s| s.path.as_str()).collect();
    assert_eq!(paths, vec!["b", "a", "e", "d"]);
    assert_eq!(list[0].kind, Kind::Gif);
    let many = (0..100).map(|i| found("x", "png", Some(i))).collect();
    let list = scan(many);
    assert_eq!(list.len(), MAX_ENTRIES);
    assert_eq!(list[0].modified, Some(99));
    assert_eq!(list[59].modified, Some(40));
    assert_eq!(file_kind(&Some("Png".into())), Some(Kind::Png));
    assert_eq!((Kind::Png.label(), Kind::Gif.class()), ("PNG", "gif"));
}

#[test]
fn files_without_a_thumbnail_are_dropped() {
    let shot = |p: &str| Shot { path: p.into(), kind: Kind::Png, size_bytes: 1, modified: None };
    let list = cards(vec![shot("a"), shot("b")], vec![None, Some("uri".into())]);
    assert_eq!(list.len(), 1);
    assert_eq!(list[0].shot.path, "b");
    assert_eq!(list[0].thumb_data_uri, "uri");
    assert!(build_thumb(Kind::Png, &encode_png(&picture()).unwrap()).is_some());
    assert!(build_thumb(Kind::Gif, &encode_png(&picture()).unwrap()).is_none());
}

/// The size as floating point gives it.
fn float_size(bytes: u64) -> String {
    let units = ["B", "KB", "MB", "GB"];
    let mut size = bytes as f64;
    let mut unit = 0;
    while size >= 1024.0 && unit < units.len() - 1 {
        size /= 1024.0;
        unit += 1;
    }
    if unit == 0 {
        format!("{} {}", bytes, units[0])
    } else {
        format!("{size:.1} {}", units[unit])
    }
}

#[test]
fn sizes_read_as_in_floating_point() {
    assert_eq!(human_size(1023), "1023 B");
    assert_eq!(human_size(1280), "1.2 KB");
    assert_eq!(human_size(1536), "1.5 KB");
    let mut n: u64 = 1;
    let mut tries = 0;
    while tries < 20_000 {
        n = n.wrapping_mul(6364136223846793005).wrapping_add(1442695040888963407);
        let v = n >> (tries % 60);
        assert_eq!(human_size(v), float_size(v), "{v}");
        tries += 1;
    }
    for v in 0..200_000u64 {
        assert_eq!(human_size(v), float_size(v), "{v}");
    }
    for v in [u64::MAX, u64::MAX - 1024, 1 << 53, (1 << 53) + 1, (1 << 54) + 2, (1 << 54) + 6] {
        assert_eq!(human_size(v), float_size(v), "{v}");
    }
}

#[test]
fn ages_are_rounded_down() {
    assert_eq!(relative_time(Some(59)), "just now");
    assert_eq!(relative_time(Some(60)), "1m ago");
    assert_eq!(relative_time(Some(7199)), "1h ago");
    assert_eq!(relative_time(Some(86_400 * 3)), "3d ago");
    assert_eq!(relative_time(None), "recently");
    assert_eq!(age(5_000_000_000, Some(1)), Age::Seconds(4));
    assert_eq!(age(5, Some(6)), Age::Ahead);
    assert_eq!(age(5, None), Age::Unknown);
    assert_eq!(card_line(2048, Age::Unknown), "2.0 KB \u{2022} \u{2014}");
    assert_eq!(card_line(5, Age::Seconds(61)), "5 B \u{2022} 1m ago");
    assert_eq!(copied_message(Kind::Gif, None), "Copied GIF (file drop) to clipboard");
    assert_eq!(copied_message(Kind::Png, Some("x".into())), "Copy failed: x");
    assert_eq!(path_copied_message(None), "Copied path to clipboard");
    assert_eq!(clean_path("\\\\?\\C:\\a.png"), "C:\\a.png");
}

#[test]
fn handles_are_picked_before_bodies() {
    let mut app = EditorApp::new(document());
    let id = draw(&mut app, Tool::Rect, at(10.0, 10.0), at(30.0, 30.0));
    app.pick_tool(Tool::Select);
    app.click_select(at(20.0, 20.0), &[false], rect(50.0, 50.0, 54.0, 54.0));
    assert_eq!(app.selection, Some(SelectionTarget::Annotation(id)));
    let h = PickHints { handles: NearHandles { ne: true, ..far() }, ..hints() };
    app.pick_handle(at(30.0, 10.0), &[false], h);
    assert_eq!(app.active_handle.as_ref().unwrap().handle, Handle::NE);
}

#[test]
fn the_exported_picture_has_the_cursor_and_the_wanted_size() {
    let dot = encode_png(&RgbaImage::from_pixel(1, 1, Rgba::new(0, 0, 250, 255))).unwrap();
    let mut doc = document();
    doc.cursor = Some(SerializedCursor { png: dot, width: 2, height: 1, x: 0, y: 1 });
    let mut app = EditorApp::new(doc);
    let source = |_w: u32, _h: u32, _x: u32, _y: u32| Some((0, 0));
    let paint = |c: RgbaImage, _b: &RgbaImage, _n: &AnnotationNode, _p: Part| c;
    let soften = |c: RgbaImage| c;
    let depths = || TornDepths { top: vec![], bottom: vec![], left: vec![], right: vec![] };
    let m = BorderMetrics { border: 0, matte: 0, shadow_radius: 0, shadow_dx: 0, shadow_dy: 0 };
    let out = app.export_picture(picture(), &source, &paint, depths(), m, &soften);
    assert_eq!((out.width, out.height), (3, 2));
    assert_eq!(out.get_pixel(1, 1), Rgba::new(0, 0, 250, 255));
    assert_eq!(out.get_pixel(2, 1), Rgba::new(0, 0, 0, 255));
    assert_eq!(out.get_pixel(2, 0), Rgba::new(200, 0, 0, 255));
    app.export_size.width = 9;
    let wide = app.export_picture(picture(), &source, &paint, depths(), m, &soften);
    assert_eq!((wide.width, wide.height), (9, 2));
}

#[test]
fn balloons_and_shapes_share_the_fill_switch() {
    let mut app = EditorApp::new(document());
    app.knobs.color = Rgba::new(1, 2, 3, 255);
    let fill_of = |app: &EditorApp| match app.document.annotations.last() {
        Some(AnnotationNode::Callout { fill, .. }) | Some(AnnotationNode::Shape { fill, .. }) => *fill,
        other => panic!("{other:?}"),
    };
    for tool in [Tool::Callout, Tool::Rect] {
        app.knobs.use_fill = true;
        draw(&mut app, tool, at(1.0, 1.0), at(20.0, 30.0));
        assert_eq!(fill_of(&app), Rgba::new(1, 2, 3, 80));
        app.knobs.use_fill = false;
        draw(&mut app, tool, at(1.0, 1.0), at(20.0, 30.0));
        assert_eq!(fill_of(&app).a, 0);
    }
}

#[test]
fn a_cursor_keeps_its_least_size() {
    let mut app = EditorApp::new(document());
    app.pick_tool(Tool::Select);
    app.selection = Some(SelectionTarget::Cursor);
    let mut h = hints();
    h.handles.se = true;
    app.drag_started(at(54.0, 54.0), &[], h);
    app.dragged(at(51.0, 60.0), &by(-3.0, 6.0), &middle, &whole);
    let c = app.document.cursor.as_ref().unwrap();
    assert_eq!((c.x, c.y, c.width, c.height), (50, 50, 4, 10));
    assert_eq!(apply_rect((7, 8, 0, 3)), (7, 8, 4, 4));
    assert_eq!(apply_rect((7, 8, 4, 90)), (7, 8, 4, 90));
}

#[test]
fn dragging_an_annotation_is_one_step() {
    let mut app = EditorApp::new(document());
    draw(&mut app, Tool::Rect, at(10.0, 10.0), at(20.0, 20.0));
    app.pick_tool(Tool::Select);
    app.click_select(at(15.0, 15.0), &[false], rect(50.0, 50.0, 54.0, 54.0));
    app.drag_started(at(15.0, 15.0), &[false], hints());
    let box_of = |app: &EditorApp| match &app.document.annotations[0] {
        AnnotationNode::Shape { rect: r, .. } => *r,
        other => panic!("{other:?}"),
    };
    app.dragged(at(16.0, 18.0), &by(1.0, 3.0), &middle, &whole);
    assert_eq!(box_of(&app), rect(11.0, 13.0, 21.0, 23.0));
    app.dragged(at(17.0, 15.0), &by(2.0, 0.0), &middle, &whole);
    app.drag_stopped(true, rect(0.0, 0.0, 1.0, 1.0), at(0.0, 0.0));
    assert_eq!(box_of(&app), rect(12.0, 10.0, 22.0, 20.0));
    app.undo();
    assert_eq!(box_of(&app), rect(10.0, 10.0, 20.0, 20.0));
}

#[test]
fn escape_drops_a_text_and_enter_finishes_it() {
    let mut app = EditorApp::new(document());
    assert!(app.text_keys(false, true).is_none());
    let begin = |app: &mut EditorApp| {
        app.pick_tool(Tool::Text);
        app.click_text(None, rect(1.0, 1.0, 9.0, 9.0));
        app.pending_text.as_mut().unwrap().buffer = "hi".into();
    };
    begin(&mut app);
    assert!(app.text_keys(false, false).is_none());
    assert!(app.pending_text.is_some());
    assert!(app.text_keys(true, true).is_none());
    assert!(app.pending_text.is_none() && app.document.annotations.is_empty());
    begin(&mut app);
    let id = app.text_keys(false, true).unwrap();
    assert_eq!(app.document.annotations[0].id(), id);
    assert!(app.pending_text.is_none());
}

#[test]
fn dragged_steps_fill_their_box() {
    let mut app = EditorApp::new(document());
    app.pick_tool(Tool::Step);
    app.click_step(at(20.0, 20.0), true);
    app.pick_tool(Tool::Select);
    app.selection = Some(SelectionTarget::Annotation(app.document.annotations[0].id()));
    let radius = app.knobs.step_radius;
    let mut h = hints();
    h.circle = rect(10.0, 10.0, 30.0, 30.0);
    h.handles.e = true;
    app.drag_started(at(30.0, 20.0), &[true], h);
    let seen = |app: &EditorApp| match &app.document.annotations[0] {
        AnnotationNode::Step { center, radius, .. } => (*center, *radius),
        other => panic!("{other:?}"),
    };
    app.dragged(at(40.0, 20.0), &by(10.0, 0.0), &middle, &whole);
    assert_eq!(seen(&app), (at(25.0, 20.0), px(15.0)));
    app.drag_stopped(true, rect(0.0, 0.0, 1.0, 1.0), at(0.0, 0.0));
    app.undo();
    assert_eq!(seen(&app), (at(20.0, 20.0), radius));
}
