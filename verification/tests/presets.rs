use grabit::clock::CivilTime;
use grabit::presets::{
    is_preset_file, is_zero, render_template, sanitize_path_component, PostAction, PostStep,
    Preset, PresetRecord, PresetStore, PresetTargetKind,
};

fn roundtrip(p: &Preset) -> Preset {
    let body = to_toml(p);
    from_toml(&body)
}

/// Writes a preset as TOML, key by key.
fn to_toml(p: &Preset) -> String {
    let r = p.record();
    let mut t = toml::Table::new();
    let text = |v: Option<String>| v.map(toml::Value::String);
    let number = |v: Option<u32>| v.map(|n| toml::Value::Integer(i64::from(n)));
    let entries = vec![
        ("name", text(r.name)),
        ("target", r.target.map(|k| toml::Value::String(k.key().to_string()))),
        ("delay_ms", number(r.delay_ms)),
        ("include_cursor", r.include_cursor.map(toml::Value::Boolean)),
        ("width", number(r.width)),
        ("height", number(r.height)),
        ("hotkey", text(r.hotkey)),
        ("post_action", r.post_action.map(|a| toml::Value::String(a.key().to_string()))),
        ("filename_template", text(r.filename_template)),
        ("subfolder", text(r.subfolder)),
    ];
    for (key, value) in entries {
        if let Some(v) = value {
            t.insert(key.to_string(), v);
        }
    }
    toml::to_string_pretty(&t).expect("serialize")
}

/// Reads a preset from TOML, key by key.
fn from_toml(body: &str) -> Preset {
    let t: toml::Table = body.parse().expect("parse");
    let text = |k: &str| t.get(k).map(|v| v.as_str().unwrap().to_string());
    let number = |k: &str| t.get(k).map(|v| v.as_integer().unwrap() as u32);
    Preset::restore(PresetRecord {
        name: text("name"),
        target: text("target").map(|s| PresetTargetKind::from_key(&s).unwrap()),
        delay_ms: number("delay_ms"),
        include_cursor: t.get("include_cursor").map(|v| v.as_bool().unwrap()),
        width: number("width"),
        height: number("height"),
        hotkey: text("hotkey"),
        post_action: text("post_action").map(|s| PostAction::from_key(&s).unwrap()),
        filename_template: text("filename_template"),
        subfolder: text("subfolder"),
    })
}

#[test]
fn preset_roundtrip_fullscreen() {
    let p = Preset {
        name: "Full".into(),
        target: PresetTargetKind::Fullscreen,
        delay_ms: 0,
        include_cursor: true,
        width: 0,
        height: 0,
        hotkey: "PrintScreen".into(),
        post_action: PostAction::SaveOnly,
        filename_template: "shot-{timestamp}".into(),
        subfolder: "".into(),
    };
    let back = roundtrip(&p);
    assert_eq!(back.name, "Full");
    assert_eq!(back.target, PresetTargetKind::Fullscreen);
    assert!(back.include_cursor);
    assert_eq!(back.hotkey, "PrintScreen");
}

#[test]
fn preset_roundtrip_region_with_delay() {
    let p = Preset::region_3s_default();
    let back = roundtrip(&p);
    assert_eq!(back.target, PresetTargetKind::Region);
    assert_eq!(back.delay_ms, 3_000);
    assert!(!back.include_cursor);
}

#[test]
fn region_3s_default_serialises_expected_shape() {
    let p = Preset::region_3s_default();
    let body = to_toml(&p);
    // Flat fields, no nested tables: the file stays hand-editable.
    assert!(body.contains("name = \"Region + 3s delay\""));
    assert!(body.contains("target = \"region\""));
    assert!(body.contains("delay_ms = 3000"));
    assert!(body.contains("include_cursor = false"));
    assert!(body.contains("post_action = \"save-only\""));
    // Optional fields that are empty or zero are skipped.
    assert!(!body.contains("width = 0"));
    assert!(!body.contains("hotkey = \"\""));
}

#[test]
fn preset_roundtrip_window_post_editor() {
    let p = Preset {
        name: "Window \u{2192} editor".into(),
        target: PresetTargetKind::Window,
        delay_ms: 0,
        include_cursor: true,
        width: 0,
        height: 0,
        hotkey: "Ctrl+Shift+W".into(),
        post_action: PostAction::Editor,
        filename_template: "win-{window}-{timestamp}".into(),
        subfolder: "windows".into(),
    };
    let back = roundtrip(&p);
    assert_eq!(back.target, PresetTargetKind::Window);
    assert_eq!(back.post_action, PostAction::Editor);
    assert_eq!(back.subfolder, "windows");
}

#[test]
fn preset_roundtrip_object() {
    let p = Preset {
        name: "Menu item".into(),
        target: PresetTargetKind::Object,
        delay_ms: 0,
        include_cursor: false,
        width: 0,
        height: 0,
        hotkey: "Ctrl+Shift+O".into(),
        post_action: PostAction::Editor,
        filename_template: "obj-{timestamp}".into(),
        subfolder: "".into(),
    };
    let back = roundtrip(&p);
    assert_eq!(back.target, PresetTargetKind::Object);
    assert_eq!(back.hotkey, "Ctrl+Shift+O");
    let body = to_toml(&p);
    assert!(body.contains("target = \"object\""), "body: {body}");
}

#[test]
fn preset_all_list_contains_new_variants() {
    assert!(PresetTargetKind::ALL.contains(&PresetTargetKind::Object));
}

#[test]
fn preset_roundtrip_exact_dims() {
    let p = Preset {
        name: "FHD".into(),
        target: PresetTargetKind::ExactDims,
        delay_ms: 500,
        include_cursor: false,
        width: 1920,
        height: 1080,
        hotkey: "Ctrl+Alt+1".into(),
        post_action: PostAction::CopyOnly,
        filename_template: "frame-{timestamp}".into(),
        subfolder: "".into(),
    };
    let back = roundtrip(&p);
    assert_eq!(back.target, PresetTargetKind::ExactDims);
    assert_eq!(back.width, 1920);
    assert_eq!(back.height, 1080);
    assert_eq!(back.post_action, PostAction::CopyOnly);
}

#[test]
fn slug_strips_punctuation() {
    let p = Preset { name: "Region + 3s delay!".into(), ..Preset::default() };
    assert_eq!(p.slug(), "region-3s-delay");
}

#[test]
fn slug_fallback_when_empty() {
    let p = Preset { name: "!!!".into(), ..Preset::default() };
    assert_eq!(p.slug(), "preset");
}

#[test]
fn template_renders_tokens() {
    assert_eq!(
        render_template("GrabIt-{timestamp}-{window}", "20260101-120000", "Notepad"),
        "GrabIt-20260101-120000-Notepad"
    );
}

#[test]
fn sanitize_drops_illegal_chars() {
    assert_eq!(sanitize_path_component("a:b/c*d"), "a_b_c_d");
    assert_eq!(sanitize_path_component("..."), "capture");
}

#[test]
fn empty_template_is_sanitized() {
    let p = Preset { filename_template: "".into(), ..Preset::default() };
    let stem = render_template(&p.filename_template, "x", "y");
    assert_eq!(sanitize_path_component(&stem), "capture");
}

#[test]
fn a_file_without_keys_is_the_default_preset() {
    let p = from_toml("");
    assert_eq!(p.name, "Untitled");
    assert_eq!(p.target, PresetTargetKind::Region);
    assert_eq!(p.delay_ms, 0);
    assert!(!p.include_cursor);
    assert_eq!((p.width, p.height), (0, 0));
    assert_eq!(p.hotkey, "");
    assert_eq!(p.post_action, PostAction::SaveOnly);
    assert_eq!(p.filename_template, "GrabIt-{timestamp}");
    assert_eq!(p.subfolder, "");
}

#[test]
fn unknown_words_in_a_preset_file() {
    assert_eq!(PostAction::from_key("save-only"), Some(PostAction::SaveOnly));
    assert_eq!(PostAction::from_key("copy-only"), Some(PostAction::CopyOnly));
    assert_eq!(PostAction::from_key("Editor"), None);
    assert_eq!(PresetTargetKind::from_key("exact-dims"), Some(PresetTargetKind::ExactDims));
    assert_eq!(PresetTargetKind::from_key("monitor"), None);
    for k in PresetTargetKind::ALL {
        assert_eq!(PresetTargetKind::from_key(k.key()), Some(k));
    }
    for a in PostAction::ALL {
        assert_eq!(PostAction::from_key(a.key()), Some(a));
    }
}

fn noon() -> CivilTime {
    CivilTime { year: 2026, month: 1, day: 2, hour: 3, minute: 4, second: 5, nanosecond: 0 }
}

#[test]
fn output_paths_stay_below_the_directory() {
    let p = Preset {
        filename_template: "win-{window}-{timestamp}".into(),
        subfolder: "a/../b:c/./d".into(),
        ..Preset::default()
    };
    let out = p.resolve_png_path(Some("Notes: today"), &noon());
    assert!(out.file_name.ends_with(".png"));
    assert!(out.file_name.contains("20260102-030405"));
    assert!(!out.file_name.contains(':'));
    assert!(out.folders.iter().all(|f| f != ".." && f != "." && !f.contains('/')));
    assert_eq!(out.folders, vec!["a".to_string(), "b_c".to_string(), "d".to_string()]);
}

#[test]
fn stores_are_ordered_by_lower_case_name() {
    let named = |n: &str| Preset { name: n.into(), ..Preset::default() };
    let store = PresetStore::load(vec![
        Some(named("beta")),
        None,
        Some(named("Alpha")),
        Some(named("ALPHA")),
        Some(named("\u{c4}gypten")),
    ]);
    let names: Vec<&str> = store.presets.iter().map(|p| p.name.as_str()).collect();
    assert_eq!(names, vec!["Alpha", "ALPHA", "beta", "\u{c4}gypten"]);
    assert!(store.find("beta").is_some());
    assert!(store.find("BETA").is_none());
}

#[test]
fn an_empty_store_is_seeded() {
    assert_eq!(PresetStore::default().seed().unwrap().name, "Region + 3s delay");
    let (unsaved, seeded) = PresetStore::load_or_seed_default(PresetStore::default(), false);
    assert!(!seeded);
    assert_eq!(unsaved.presets.len(), 1);
    let (store, seeded) = PresetStore::load_or_seed_default(PresetStore::default(), true);
    assert!(seeded);
    assert_eq!(store.presets.len(), 1);
    assert_eq!(store.presets[0].name, "Region + 3s delay");
    let (again, seeded) = PresetStore::load_or_seed_default(store, true);
    assert!(!seeded);
    assert_eq!(again.presets.len(), 1);
}

#[test]
fn only_bound_presets_have_hotkeys() {
    let store = PresetStore::load(vec![
        Some(Preset { name: "A".into(), hotkey: "Ctrl+1".into(), ..Preset::default() }),
        Some(Preset { name: "B".into(), ..Preset::default() }),
    ]);
    assert_eq!(store.bound_hotkeys(), vec![("Ctrl+1".to_string(), "A".to_string())]);
}

#[test]
fn preset_files_end_in_toml() {
    assert!(is_preset_file(Some("toml")));
    assert!(!is_preset_file(Some("TOML")));
    assert!(!is_preset_file(None));
    assert!(is_zero(&0));
    assert!(!is_zero(&1));
}

#[test]
fn slugs_and_components_are_stable() {
    for name in ["Region + 3s delay!", "  a__b  ", "\u{c4}\u{d6}", "x-y", "9"] {
        let slug = Preset { name: name.into(), ..Preset::default() }.slug();
        let again = Preset { name: slug.clone(), ..Preset::default() }.slug();
        assert_eq!(slug, again);
        let safe = sanitize_path_component(name);
        assert_eq!(sanitize_path_component(&safe), safe);
    }
    assert_eq!(render_template("no tokens", "t", "w"), "no tokens");
}

#[test]
fn underscores_are_collapsed() {
    assert_eq!(sanitize_path_component("a:_b"), "a_b");
    assert_eq!(sanitize_path_component("a__b"), "a_b");
    assert_eq!(sanitize_path_component("_::__*c_"), "_c_");
}

#[test]
fn an_empty_window_title_reads_unknown() {
    let p = Preset { filename_template: "GrabIt-{window}".into(), ..Preset::default() };
    assert_eq!(p.resolve_png_path(Some(""), &noon()).file_name, "GrabIt-unknown.png");
    assert_eq!(p.resolve_png_path(None, &noon()).file_name, "GrabIt-unknown.png");
    assert_eq!(p.resolve_png_path(Some("x"), &noon()).file_name, "GrabIt-x.png");
}

#[test]
fn actions_consist_of_their_steps() {
    assert_eq!(PostAction::SaveOnly.steps(), vec![PostStep::Save, PostStep::Copy]);
    assert_eq!(PostAction::Editor.steps(), vec![PostStep::Save, PostStep::OpenEditor]);
    assert_eq!(PostAction::CopyOnly.steps(), vec![PostStep::Copy]);
}
