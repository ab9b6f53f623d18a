use grabit::app::{hotkey_bindings, preset_hotkeys, Command};
use grabit::hotkeys::bindings::HotkeyBinding;
use grabit::hotkeys::{command_for_event, PresetHotkey, RefreshReport, Registrar};
use grabit::settings::Settings;

/// A registrar on a machine where every registration succeeds.
struct Machine {
    registrar: Registrar,
    actions: Vec<String>,
}

impl Machine {
    fn new() -> Machine {
        Machine { registrar: Registrar::install(Vec::new(), &[]), actions: Vec::new() }
    }

    fn refresh(&mut self, next: &[PresetHotkey]) -> RefreshReport {
        let plan = self.registrar.plan_refresh(next);
        for r in &plan.dropped {
            self.actions.push(format!("unregister:{}", r.chord));
        }
        for r in &plan.fresh {
            self.actions.push(format!("register:{}", r.chord));
        }
        let outcomes: Vec<Option<String>> = plan.fresh.iter().map(|_| None).collect();
        self.registrar.refresh_hotkeys(next, plan, &outcomes)
    }
}

fn ph(chord: &str, name: &str) -> PresetHotkey {
    PresetHotkey { chord: chord.to_string(), preset_name: name.to_string() }
}

#[test]
fn refresh_from_empty_registers_new_entries() {
    let mut r = Machine::new();
    let report = r.refresh(&[ph("Ctrl+Shift+1", "A"), ph("Ctrl+Shift+2", "B")]);
    assert_eq!(report.registered.len(), 2);
    assert_eq!(report.failed.len(), 0);
    assert!(r.actions.iter().any(|a| a == "register:Ctrl+Shift+1"));
    assert!(r.actions.iter().any(|a| a == "register:Ctrl+Shift+2"));
}

#[test]
fn refresh_unregisters_removed_presets() {
    let mut r = Machine::new();
    r.refresh(&[ph("Ctrl+Shift+1", "A"), ph("Ctrl+Shift+2", "B")]);
    r.actions.clear();
    r.refresh(&[ph("Ctrl+Shift+1", "A")]);
    assert!(r.actions.iter().any(|a| a == "unregister:Ctrl+Shift+2"));
    assert!(!r.actions.iter().any(|a| a == "register:Ctrl+Shift+1"));
}

#[test]
fn refresh_rebinds_when_preset_name_changes() {
    let mut r = Machine::new();
    r.refresh(&[ph("Ctrl+Shift+1", "A")]);
    r.actions.clear();
    r.refresh(&[ph("Ctrl+Shift+1", "RenamedA")]);
    // Same chord, different preset: it is registered again.
    assert!(r.actions.iter().any(|a| a == "unregister:Ctrl+Shift+1"));
    assert!(r.actions.iter().any(|a| a == "register:Ctrl+Shift+1"));
}

#[test]
fn refresh_reports_duplicate_chords() {
    let mut r = Machine::new();
    let report = r.refresh(&[ph("Ctrl+Shift+1", "A"), ph("ctrl+shift+1", "B")]);
    assert_eq!(report.registered.len(), 1);
    assert_eq!(report.failed.len(), 1);
    assert_eq!(report.failed[0].0, "B");
}

#[test]
fn refresh_reports_unparseable_chords() {
    let mut r = Machine::new();
    let report = r.refresh(&[ph("Ctrl+", "A"), ph("Ctrl+Shift+2", "B")]);
    assert_eq!(report.registered.len(), 1);
    assert_eq!(report.failed.len(), 1);
    assert!(report.failed[0].2.contains("unparseable"));
}

#[test]
fn refresh_is_idempotent_on_same_input() {
    let mut r = Machine::new();
    let entries = [ph("Ctrl+Shift+1", "A"), ph("Ctrl+Shift+2", "B")];
    r.refresh(&entries);
    r.actions.clear();
    r.refresh(&entries);
    // Nothing should change.
    assert!(r.actions.is_empty(), "actions: {:?}", r.actions);
}

#[test]
fn a_refused_registration_is_reported_and_not_kept() {
    let mut r = Machine::new();
    let next = [ph("Ctrl+Shift+1", "A"), ph("Ctrl+Shift+2", "B")];
    let plan = r.registrar.plan_refresh(&next);
    let report = r.registrar.refresh_hotkeys(&next, plan, &[Some("taken".to_string()), None]);
    assert_eq!(report.registered, vec![("B".to_string(), "Ctrl+Shift+2".to_string())]);
    assert_eq!(report.failed.len(), 1);
    assert_eq!(report.failed[0].0, "A");
    assert!(report.failed[0].2.contains("taken"));
    assert_eq!(r.registrar.presets.len(), 1);
}

#[test]
fn presets_cannot_take_the_chord_of_a_setting() {
    let bindings = [(HotkeyBinding { raw: "ctrl+shift+1".into() }, Command::CaptureFullscreen)];
    let plan = Registrar::plan_install(&bindings);
    assert_eq!(plan.len(), 1);
    let mut m = Machine { registrar: Registrar::install(plan, &[true]), actions: Vec::new() };
    let report = m.refresh(&[ph("Ctrl+Shift+1", "A")]);
    assert_eq!(report.registered.len(), 0);
    assert_eq!(report.failed.len(), 1);
    assert_eq!(m.registrar.global.len(), 1);
}

#[test]
fn events_reach_the_command_of_their_hotkey() {
    let mut m = Machine::new();
    m.refresh(&[ph("Ctrl+Shift+1", "A"), ph("Ctrl+Shift+2", "B")]);
    let table = m.registrar.rebuild_dispatch();
    assert_eq!(table.len(), 2);
    let id = m.registrar.presets[1].hotkey.id;
    match command_for_event(&table, id, true) {
        Some(Command::CapturePreset(name)) => assert_eq!(name, "B"),
        other => panic!("{other:?}"),
    }
    assert!(command_for_event(&table, id, false).is_none());
    assert!(command_for_event(&table, id.wrapping_add(1), true).is_none());
}

#[test]
fn settings_name_three_global_hotkeys() {
    let s = Settings::default();
    let b = hotkey_bindings(&s, "Ctrl+Shift+G");
    assert_eq!(b.len(), 3);
    assert_eq!(b[0].0.raw, "PrintScreen");
    assert_eq!(b[1].0.raw, "Ctrl+X");
    assert_eq!(b[2].0.raw, "Ctrl+Shift+G");
    assert!(matches!(b[2].1, Command::CaptureGif));
    let p = preset_hotkeys(&[("F1".to_string(), "A".to_string())]);
    assert_eq!((p[0].chord.as_str(), p[0].preset_name.as_str()), ("F1", "A"));
}
