use grabit::app::{
    apply_output_dir_override, arg_value, check_marker_files, editor_arguments,
    handle_hotkey_command, launch_mode, output_dir_override, run_event_loop, Command, Found,
    HotkeyAction, Launch, LaunchError, LoopStep, Phase, WindowMessage,
};
use grabit::capture::CaptureTarget;
use grabit::hotkeys::bindings::{HotkeyBinding, KeyCode};
use grabit::settings::ui::{
    number_input, parse_number, GifSettings, Held, PressedKey, RecordTarget, Recorder, SettingsForm,
};
use grabit::settings::{Settings, SettingsRecord, Stored};

fn args(list: &[&str]) -> Vec<String> {
    list.iter().map(|s| s.to_string()).collect()
}

#[test]
fn command_lines_name_a_window() {
    let mode = |l: &[&str]| launch_mode(&args(l));
    assert!(matches!(mode(&["grabit"]), Ok(Launch::Tray)));
    assert!(matches!(mode(&["grabit", "--help"]), Ok(Launch::Help)));
    assert!(matches!(mode(&["grabit", "-h"]), Ok(Launch::Help)));
    assert!(matches!(mode(&["grabit", "--capture", "--help"]), Ok(Launch::Capture)));
    assert!(matches!(mode(&["grabit", "--settings"]), Ok(Launch::Settings)));
    assert!(matches!(mode(&["grabit", "--history"]), Ok(Launch::History)));
    match mode(&["grabit", "--gif-editor", "a.json"]) {
        Ok(Launch::GifEditor { sidecar }) => assert_eq!(sidecar, "a.json"),
        other => panic!("{other:?}"),
    }
    assert_eq!(mode(&["grabit", "--editor"]).unwrap_err(), LaunchError::EditorNeedsPath);
    let e = mode(&["grabit", "--gif-editor"]).unwrap_err();
    assert_eq!(e, LaunchError::GifEditorNeedsPath);
    assert_eq!(e.message(), "--gif-editor requires a path");
    assert_eq!(LaunchError::EditorNeedsPath.message(), "--editor requires a path");
}

#[test]
fn the_editor_is_started_on_the_same_files() {
    for copy in [false, true] {
        let mut line = args(&["grabit"]);
        line.extend(editor_arguments("a.grabit", "a.png", copy));
        match launch_mode(&line) {
            Ok(Launch::Editor { sidecar, png_out, clipboard }) => {
                assert_eq!(sidecar, "a.grabit");
                assert_eq!(png_out.as_deref(), Some("a.png"));
                assert_eq!(clipboard, copy);
            }
            other => panic!("{other:?}"),
        }
    }
    assert_eq!(arg_value(&args(&["--x", "1", "--x", "2"]), "--x").as_deref(), Some("1"));
    assert_eq!(arg_value(&args(&["--x"]), "--x"), None);
}

#[test]
fn the_loop_goes_round() {
    let (next, steps) = run_event_loop(Phase::Commands, Found::Command(Command::RefreshHotkeys));
    assert_eq!(next, Phase::Commands);
    assert!(matches!(steps[0], LoopStep::Run { rebind: true, .. }));
    let (_, steps) = run_event_loop(Phase::Commands, Found::Command(Command::Quit));
    assert!(matches!(steps[0], LoopStep::Stop));
    let (next, steps) = run_event_loop(Phase::Commands, Found::NoCommand);
    assert!(next == Phase::Menus && steps.is_empty());
    let (next, _) = run_event_loop(next, Found::MenusForwarded);
    assert_eq!(next, Phase::Markers);
    let found = Found::Markers { refresh: true, capture: Some("  Full \n".into()) };
    let (next, steps) = run_event_loop(next, found);
    assert_eq!(next, Phase::Settings);
    assert_eq!(steps.len(), 2);
    assert!(matches!(&steps[0], LoopStep::Enqueue(Command::RefreshHotkeys)));
    assert!(matches!(&steps[1], LoopStep::Enqueue(Command::CapturePreset(n)) if n == "Full"));
    let (next, steps) = run_event_loop(next, Found::Settings(true));
    assert_eq!(next, Phase::Message);
    assert!(matches!(steps[0], LoopStep::ReloadSettings));
    let (next, steps) = run_event_loop(next, Found::Message(WindowMessage::Nothing));
    assert_eq!(next, Phase::Commands);
    assert!(matches!(steps[0], LoopStep::Sleep { millis: 16 }));
    let (_, steps) = run_event_loop(Phase::Message, Found::Message(WindowMessage::Quit));
    assert!(matches!(steps[0], LoopStep::Stop));
    let (_, steps) = run_event_loop(Phase::Message, Found::Message(WindowMessage::Other));
    assert!(matches!(steps[0], LoopStep::DispatchMessage));
}

#[test]
fn blank_capture_markers_ask_for_nothing() {
    assert!(check_marker_files(false, Some(" \n".into())).is_empty());
    assert!(check_marker_files(false, None).is_empty());
}

#[test]
fn captures_run_at_once_and_the_rest_is_forwarded() {
    let s = Settings { include_cursor: false, copy_to_clipboard: true, ..Settings::default() };
    match handle_hotkey_command(Command::CaptureFullscreen, &s) {
        HotkeyAction::SaveCapture { request, copy } => {
            assert_eq!(request.target, CaptureTarget::Fullscreen);
            assert!(!request.include_cursor && copy);
            assert_eq!(request.delay_ms, 0);
        }
        other => panic!("{other:?}"),
    }
    match handle_hotkey_command(Command::CaptureAndAnnotate, &s) {
        HotkeyAction::Annotate { request, .. } => {
            assert_eq!(request.target, CaptureTarget::Interactive { allow_windows: false })
        }
        other => panic!("{other:?}"),
    }
    assert!(matches!(handle_hotkey_command(Command::CaptureGif, &s), HotkeyAction::ToggleGif));
    let f = handle_hotkey_command(Command::SetLaunchAtStartup(true), &s);
    assert!(matches!(f, HotkeyAction::Forward(Command::SetLaunchAtStartup(true))));
}

#[test]
fn output_folders_are_overridden_if_they_can_be_made() {
    let with = |d: Option<&str>| Settings { output_dir: d.map(String::from), ..Settings::default() };
    assert_eq!(output_dir_override(&with(None)), None);
    assert_eq!(output_dir_override(&with(Some("  "))), None);
    assert_eq!(output_dir_override(&with(Some(" D:\\x "))).as_deref(), Some("D:\\x"));
    let new = apply_output_dir_override("old".into(), Some("new".into()), true);
    assert_eq!(new, "new");
    assert_eq!(apply_output_dir_override("old".into(), Some("new".into()), false), "old");
    assert_eq!(apply_output_dir_override("old".into(), None, true), "old");
}

fn no_record() -> SettingsRecord {
    SettingsRecord {
        hotkey: None,
        annotate_hotkey: None,
        launch_at_startup: None,
        include_cursor: None,
        copy_to_clipboard: None,
        output_dir: None,
        arrow_shadow: None,
        arrow_advanced_color: None,
    }
}

#[test]
fn settings_files_default_what_they_lack() {
    let s = Settings::restore(no_record());
    assert_eq!(s.hotkey.raw, "PrintScreen");
    assert_eq!(s.annotate_hotkey.raw, "Ctrl+X");
    assert!(s.launch_at_startup && s.include_cursor && s.copy_to_clipboard && s.arrow_shadow);
    assert!(s.output_dir.is_none() && !s.arrow_advanced_color);
    let other = Settings {
        hotkey: HotkeyBinding { raw: "F1".into() },
        output_dir: Some("x".into()),
        arrow_shadow: false,
        ..Settings::default()
    };
    let back = Settings::restore(other.record());
    assert_eq!(back.hotkey.raw, "F1");
    assert_eq!(back.output_dir.as_deref(), Some("x"));
    assert!(!back.arrow_shadow);
}

#[test]
fn the_current_settings_file_wins() {
    let named = |h: &str| Settings { hotkey: HotkeyBinding { raw: h.into() }, ..Settings::default() };
    let pick = |c: Stored, l: Stored| Settings::load_or_default(c, l).hotkey.raw;
    assert_eq!(pick(Stored::Parsed(named("F1")), Stored::Parsed(named("F2"))), "F1");
    assert_eq!(pick(Stored::Malformed, Stored::Parsed(named("F2"))), "PrintScreen");
    assert_eq!(pick(Stored::Missing, Stored::Parsed(named("F2"))), "F2");
    assert_eq!(pick(Stored::Missing, Stored::Malformed), "PrintScreen");
}

fn held(ctrl: bool, shift: bool) -> Held {
    Held { ctrl, shift, alt: false, meta: false }
}

#[test]
fn chords_are_recorded() {
    let mut r = Recorder::new();
    r.key_down(RecordTarget::Gif, &PressedKey::Character("x".into()), held(true, false));
    assert!(r.captured.is_none());
    r.start(RecordTarget::Gif);
    assert_eq!(r.prompt(), "Press combo\u{2026}");
    r.key_down(RecordTarget::Gif, &PressedKey::Character("x".into()), held(true, true));
    assert_eq!(r.prompt(), "Captured: Ctrl+Shift+X");
    r.key_down(RecordTarget::Gif, &PressedKey::Other, held(true, true));
    let mut field = "old".to_string();
    r.confirm(&mut field);
    assert_eq!(field, "Ctrl+Shift+X");
    r.start(RecordTarget::Annotate);
    r.key_down(RecordTarget::Annotate, &PressedKey::Named(KeyCode::Escape), held(false, false));
    assert!(r.recording.is_none());
    r.confirm(&mut field);
    assert_eq!(field, "Ctrl+Shift+X");
    r.cancel();
}

#[test]
fn numbers_are_read_like_the_standard_library_reads_them() {
    for s in ["0", "7", "+12", "65535", "65536", "", "+", "-1", "1.5", " 3", "++1", "4294967296"] {
        let ours = parse_number(s, 65535);
        let theirs = s.parse::<u16>().ok().map(u32::from);
        assert_eq!(ours, theirs, "{s:?}");
        assert_eq!(parse_number(s, u32::MAX), s.parse::<u32>().ok(), "{s:?}");
    }
    assert_eq!(number_input(30, "100", u32::MAX, 5, 60), 60);
    assert_eq!(number_input(30, "x", u32::MAX, 5, 60), 30);
}

fn gif() -> GifSettings {
    GifSettings {
        hotkey: "Ctrl+Shift+G".into(),
        fps: 100,
        loop_count: 0,
        max_seconds: 0,
        record_cursor: true,
    }
}

#[test]
fn forms_are_checked_before_they_are_stored() {
    let mut form = SettingsForm::new(Settings::default(), gif());
    form.output_dir = "  D:\\shots ".into();
    let plan = form.save().unwrap();
    assert_eq!(plan.create.as_deref(), Some("D:\\shots"));
    assert_eq!(plan.settings.output_dir.as_deref(), Some("D:\\shots"));
    assert_eq!((plan.gif.fps, plan.gif.max_seconds), (60, 1));
    form.settings.annotate_hotkey.raw = "Ctrl+".into();
    assert!(form.save().is_none());
    assert_eq!(form.status, "Annotate hotkey invalid: hotkey 'Ctrl+' has no key component");
    assert!(form.is_error());
    form.reset(gif());
    assert!(!form.is_error());
    assert_eq!(form.output_dir, "");
    assert_eq!(form.settings.annotate_hotkey.raw, "Ctrl+X");
    form.folder_failed("full");
    assert_eq!(form.status, "Output folder unusable: full");
    form.save_failed("full");
    assert_eq!(form.status, "Save failed: full");
}

#[test]
fn settings_rows_hold_their_limits() {
    let mut g = gif();
    g.type_fps("61");
    assert_eq!(g.fps, 60);
    g.type_fps("4");
    assert_eq!(g.fps, 5);
    g.type_fps("fast");
    assert_eq!(g.fps, 5);
    g.type_loop_count("10001");
    assert_eq!(g.loop_count, 10_000);
    g.type_loop_count("65536");
    assert_eq!(g.loop_count, 10_000);
    g.type_loop_count("0");
    assert_eq!(g.loop_count, 0);
    g.type_max_seconds("0");
    assert_eq!(g.max_seconds, 1);
    g.type_max_seconds("601");
    assert_eq!(g.max_seconds, 600);
    g.type_max_seconds("");
    assert_eq!(g.max_seconds, 600);
}
