use global_hotkey::hotkey::{Code, Modifiers};
use grabit::hotkeys::bindings::{
    canonical_key_name, canonicalise, modifiers, parse, parse_chord, Chord, ChordError, HotKey,
    HotkeyBinding, KeyCode,
};

#[test]
fn parses_printscreen() {
    parse("PrintScreen").unwrap();
    parse("PrtSc").unwrap();
}

#[test]
fn parses_modified_letter() {
    parse("Ctrl+Shift+X").unwrap();
}

#[test]
fn rejects_empty() {
    assert!(parse("Ctrl+Shift").is_err());
}

#[test]
fn rejects_garbage_chord() {
    assert!(parse_chord("").is_err());
    assert!(parse_chord("Ctrl+").is_err());
    assert!(parse_chord("Ctrl+BogusKey").is_err());
    assert!(parse_chord("%%%").is_err());
}

#[test]
fn canonicalises_out_of_order_chord() {
    let (canon, _) = parse_chord("shift+ctrl+x").unwrap();
    assert_eq!(canon, "Ctrl+Shift+X");
}

#[test]
fn canonicalises_printscreen_aliases() {
    let (canon, _) = parse_chord("prtsc").unwrap();
    assert_eq!(canon, "PrintScreen");
    let (canon, _) = parse_chord("Ctrl+prtscn").unwrap();
    assert_eq!(canon, "Ctrl+PrintScreen");
}

#[test]
fn roundtrip_through_canonical_form_is_stable() {
    let first = parse_chord("Ctrl+Shift+1").unwrap().0;
    let second = parse_chord(&first).unwrap().0;
    assert_eq!(first, second);
}

#[test]
fn canonical_f_keys() {
    assert_eq!(parse_chord("f12").unwrap().0, "F12");
    assert_eq!(parse_chord("Ctrl+F5").unwrap().0, "Ctrl+F5");
}

fn every_key() -> Vec<KeyCode> {
    let mut keys = vec![
        KeyCode::PrintScreen,
        KeyCode::Escape,
        KeyCode::Space,
        KeyCode::Tab,
        KeyCode::Enter,
        KeyCode::Backspace,
        KeyCode::Delete,
        KeyCode::Insert,
        KeyCode::Home,
        KeyCode::End,
        KeyCode::PageUp,
        KeyCode::PageDown,
        KeyCode::ArrowUp,
        KeyCode::ArrowDown,
        KeyCode::ArrowLeft,
        KeyCode::ArrowRight,
    ];
    keys.extend((1..=12u8).map(KeyCode::F));
    keys.extend(('A'..='Z').map(KeyCode::Letter));
    keys.extend(('0'..='9').map(KeyCode::Digit));
    keys
}

fn chord(bits: u32, key: KeyCode) -> Chord {
    Chord { ctrl: bits & 1 != 0, shift: bits & 2 != 0, alt: bits & 4 != 0, meta: bits & 8 != 0, key }
}

#[test]
fn every_chord_has_an_identity_of_its_own() {
    let mut ids = std::collections::HashSet::new();
    let mut count = 0usize;
    for key in every_key() {
        for bits in 0..16u32 {
            let h = HotKey::new(chord(bits, key));
            assert_eq!(h.chord, chord(bits, key));
            ids.insert(h.id);
            count += 1;
        }
    }
    assert_eq!(ids.len(), count);
}

#[test]
fn identities_are_those_of_the_hotkey_crate() {
    let ours = parse_chord("Ctrl+Shift+X").unwrap().1;
    let theirs =
        global_hotkey::hotkey::HotKey::new(Some(Modifiers::CONTROL | Modifiers::SHIFT), Code::KeyX);
    assert_eq!(ours.id, theirs.id());
    let ours = parse_chord("PrintScreen").unwrap().1;
    let theirs = global_hotkey::hotkey::HotKey::new(None, Code::PrintScreen);
    assert_eq!(ours.id, theirs.id());
}

#[test]
fn canonical_forms_reparse_to_the_same_chord() {
    for key in every_key() {
        for bits in 0..16u32 {
            let c = chord(bits, key);
            let text = grabit::hotkeys::bindings::canonical_text(c);
            assert_eq!(parse(&text).unwrap(), c, "{text}");
            assert_eq!(canonicalise(&text).unwrap(), text);
        }
    }
}

#[test]
fn errors_say_what_is_wrong() {
    match parse("Ctrl+BogusKey") {
        Err(ChordError::UnsupportedKey(k)) => assert_eq!(k, "boguskey"),
        other => panic!("{other:?}"),
    }
    match parse("Ctrl+Shift") {
        Err(ChordError::NoKey(s)) => assert_eq!(s, "Ctrl+Shift"),
        other => panic!("{other:?}"),
    }
    assert_eq!(parse("Ctrl+Shift").unwrap_err().message(), "hotkey 'Ctrl+Shift' has no key component");
    assert_eq!(parse("Nope").unwrap_err().message(), "unsupported key 'nope'");
}

#[test]
fn modifier_bits_follow_the_hotkey_crate() {
    let c = chord(15, KeyCode::Letter('Q'));
    let expected = Modifiers::CONTROL | Modifiers::SHIFT | Modifiers::ALT | Modifiers::META;
    assert_eq!(modifiers(c), expected.bits());
    assert_eq!(modifiers(chord(0, KeyCode::Tab)), 0);
}

#[test]
fn the_default_binding() {
    let b = HotkeyBinding::default();
    assert_eq!(b.raw, "PrintScreen");
    let h = b.as_hotkey().unwrap();
    assert_eq!(h.chord, chord(0, KeyCode::PrintScreen));
}

#[test]
fn canonical_key_names() {
    assert_eq!(canonical_key_name("x"), "X");
    assert_eq!(canonical_key_name("prtsc"), "PrintScreen");
    assert_eq!(canonical_key_name("f5"), "F5");
}
