//! Application settings: what they are by default, and which stored file wins.
pub mod ui;

use vstd::prelude::*;
use crate::hotkeys::bindings::HotkeyBinding;
use crate::text::copy_optional;

verus! {

/// The user's settings.
#[derive(Debug)]
pub struct Settings {
    /// Global hotkey for a fullscreen capture.
    pub hotkey: HotkeyBinding,
    /// Global hotkey for a capture that opens the editor. While it is Ctrl+X, that
    /// keystroke does not reach other applications.
    pub annotate_hotkey: HotkeyBinding,
    pub launch_at_startup: bool,
    /// Take the cursor along in captures, as a layer of its own.
    pub include_cursor: bool,
    /// Copy every capture to the clipboard.
    pub copy_to_clipboard: bool,
    /// Where captures go, instead of the default directory.
    pub output_dir: Option<String>,
    /// New arrows have a shadow.
    pub arrow_shadow: bool,
    /// The arrow tool shows a full colour picker instead of a palette.
    pub arrow_advanced_color: bool,
}

/// The settings as plain values.
#[verifier::ext_equal]
pub struct SettingsView {
    pub hotkey: Seq<char>,
    pub annotate_hotkey: Seq<char>,
    pub launch_at_startup: bool,
    pub include_cursor: bool,
    pub copy_to_clipboard: bool,
    pub output_dir: Option<Seq<char>>,
    pub arrow_shadow: bool,
    pub arrow_advanced_color: bool,
}

impl View for Settings {
    type V = SettingsView;

    open spec fn view(&self) -> SettingsView {
        SettingsView {
            hotkey: self.hotkey@,
            annotate_hotkey: self.annotate_hotkey@,
            launch_at_startup: self.launch_at_startup,
            include_cursor: self.include_cursor,
            copy_to_clipboard: self.copy_to_clipboard,
            output_dir: crate::text::optional_text(self.output_dir),
            arrow_shadow: self.arrow_shadow,
            arrow_advanced_color: self.arrow_advanced_color,
        }
    }
}

/// The settings of a fresh installation.
pub open spec fn defaults() -> SettingsView {
    SettingsView {
        hotkey: "PrintScreen"@,
        annotate_hotkey: "Ctrl+X"@,
        launch_at_startup: true,
        include_cursor: true,
        copy_to_clipboard: true,
        output_dir: None,
        arrow_shadow: true,
        arrow_advanced_color: false,
    }
}

impl Default for Settings {
    fn default() -> (r: Settings)
        ensures
            r@ == defaults(),
    {
        Settings {
            hotkey: HotkeyBinding::default(),
            annotate_hotkey: HotkeyBinding { raw: "Ctrl+X".to_owned() },
            launch_at_startup: true,
            include_cursor: true,
            copy_to_clipboard: true,
            output_dir: None,
            arrow_shadow: true,
            arrow_advanced_color: false,
        }
    }
}

impl Clone for Settings {
    fn clone(&self) -> (r: Settings)
        ensures
            r@ == self@,
    {
        Settings {
            hotkey: self.hotkey.clone(),
            annotate_hotkey: self.annotate_hotkey.clone(),
            launch_at_startup: self.launch_at_startup,
            include_cursor: self.include_cursor,
            copy_to_clipboard: self.copy_to_clipboard,
            output_dir: copy_optional(&self.output_dir),
            arrow_shadow: self.arrow_shadow,
            arrow_advanced_color: self.arrow_advanced_color,
        }
    }
}

/// What a settings file says. A key that it does not have counts as the default.
#[derive(Debug)]
pub struct SettingsRecord {
    pub hotkey: Option<String>,
    pub annotate_hotkey: Option<String>,
    pub launch_at_startup: Option<bool>,
    pub include_cursor: Option<bool>,
    pub copy_to_clipboard: Option<bool>,
    pub output_dir: Option<String>,
    pub arrow_shadow: Option<bool>,
    pub arrow_advanced_color: Option<bool>,
}

/// What a settings file says, as plain values.
#[verifier::ext_equal]
pub struct SettingsRecordView {
    pub hotkey: Option<Seq<char>>,
    pub annotate_hotkey: Option<Seq<char>>,
    pub launch_at_startup: Option<bool>,
    pub include_cursor: Option<bool>,
    pub copy_to_clipboard: Option<bool>,
    pub output_dir: Option<Seq<char>>,
    pub arrow_shadow: Option<bool>,
    pub arrow_advanced_color: Option<bool>,
}

impl View for SettingsRecord {
    type V = SettingsRecordView;

    open spec fn view(&self) -> SettingsRecordView {
        SettingsRecordView {
            hotkey: crate::text::optional_text(self.hotkey),
            annotate_hotkey: crate::text::optional_text(self.annotate_hotkey),
            launch_at_startup: self.launch_at_startup,
            include_cursor: self.include_cursor,
            copy_to_clipboard: self.copy_to_clipboard,
            output_dir: crate::text::optional_text(self.output_dir),
            arrow_shadow: self.arrow_shadow,
            arrow_advanced_color: self.arrow_advanced_color,
        }
    }
}

/// The settings that a file stands for.
pub open spec fn settings_restored(r: SettingsRecordView) -> SettingsView {
    let d = defaults();
    SettingsView {
        hotkey: crate::presets::stored(r.hotkey, d.hotkey),
        annotate_hotkey: crate::presets::stored(r.annotate_hotkey, d.annotate_hotkey),
        launch_at_startup: crate::presets::stored(r.launch_at_startup, d.launch_at_startup),
        include_cursor: crate::presets::stored(r.include_cursor, d.include_cursor),
        copy_to_clipboard: crate::presets::stored(r.copy_to_clipboard, d.copy_to_clipboard),
        output_dir: r.output_dir,
        arrow_shadow: crate::presets::stored(r.arrow_shadow, d.arrow_shadow),
        arrow_advanced_color: crate::presets::stored(
            r.arrow_advanced_color,
            d.arrow_advanced_color,
        ),
    }
}

/// The file of settings, with all keys.
pub open spec fn settings_recorded(s: SettingsView) -> SettingsRecordView {
    SettingsRecordView {
        hotkey: Some(s.hotkey),
        annotate_hotkey: Some(s.annotate_hotkey),
        launch_at_startup: Some(s.launch_at_startup),
        include_cursor: Some(s.include_cursor),
        copy_to_clipboard: Some(s.copy_to_clipboard),
        output_dir: s.output_dir,
        arrow_shadow: Some(s.arrow_shadow),
        arrow_advanced_color: Some(s.arrow_advanced_color),
    }
}

impl Settings {
    /// The file of these settings.
    pub fn record(&self) -> (r: SettingsRecord)
        ensures
            r@ == settings_recorded(self@),
    {
        SettingsRecord {
            hotkey: Some(self.hotkey.raw.clone()),
            annotate_hotkey: Some(self.annotate_hotkey.raw.clone()),
            launch_at_startup: Some(self.launch_at_startup),
            include_cursor: Some(self.include_cursor),
            copy_to_clipboard: Some(self.copy_to_clipboard),
            output_dir: copy_optional(&self.output_dir),
            arrow_shadow: Some(self.arrow_shadow),
            arrow_advanced_color: Some(self.arrow_advanced_color),
        }
    }

    /// Reads a settings file.
    pub fn restore(r: SettingsRecord) -> (s: Settings)
        ensures
            s@ == settings_restored(r@),
    {
        let mut s = Settings::default();
        if let Some(v) = r.hotkey {
            s.hotkey = HotkeyBinding { raw: v };
        }
        if let Some(v) = r.annotate_hotkey {
            s.annotate_hotkey = HotkeyBinding { raw: v };
        }
        if let Some(v) = r.launch_at_startup {
            s.launch_at_startup = v;
        }
        if let Some(v) = r.include_cursor {
            s.include_cursor = v;
        }
        if let Some(v) = r.copy_to_clipboard {
            s.copy_to_clipboard = v;
        }
        s.output_dir = r.output_dir;
        if let Some(v) = r.arrow_shadow {
            s.arrow_shadow = v;
        }
        if let Some(v) = r.arrow_advanced_color {
            s.arrow_advanced_color = v;
        }
        s
    }
}

/// Settings that are written and read again are the same, and a file that says
/// nothing stands for the defaults.
pub proof fn law_settings_files_round_trip(s: SettingsView, r: SettingsRecordView)
    ensures
        settings_restored(settings_recorded(s)) == s,
        r.hotkey is None && r.annotate_hotkey is None && r.launch_at_startup is None
            && r.include_cursor is None && r.copy_to_clipboard is None && r.output_dir is None
            && r.arrow_shadow is None && r.arrow_advanced_color is None ==> settings_restored(r)
            == defaults(),
{
}

/// What was found of a settings file.
#[derive(Debug)]
pub enum Stored {
    /// There is no file, or it cannot be read.
    Missing,
    /// The file does not parse.
    Malformed,
    Parsed(Settings),
}

/// The settings to start with. The current file decides if there is one; where it
/// does not parse, the defaults hold. Without it, a legacy file that parses is
/// taken over.
pub open spec fn chosen(current: Stored, legacy: Stored) -> SettingsView {
    match current {
        Stored::Parsed(s) => s@,
        Stored::Malformed => defaults(),
        Stored::Missing => match legacy {
            Stored::Parsed(s) => s@,
            _ => defaults(),
        },
    }
}

impl Settings {
    /// Picks the settings to start with from what was found on disk.
    pub fn load_or_default(current: Stored, legacy: Stored) -> (r: Settings)
        ensures
            r@ == chosen(current, legacy),
    {
        match current {
            Stored::Parsed(s) => s,
            Stored::Malformed => Settings::default(),
            Stored::Missing => match legacy {
                Stored::Parsed(s) => s,
                _ => Settings::default(),
            },
        }
    }
}

/// What a settings file sets is taken from it, each thing by itself; what it
/// leaves out is as in new settings.
pub proof fn law_files_set_each_thing(r: SettingsRecordView)
    ensures
        ({
            let s = settings_restored(r);
            let d = defaults();
            &&& r.hotkey matches Some(v) ==> s.hotkey == v
            &&& r.hotkey is None ==> s.hotkey == d.hotkey
            &&& r.annotate_hotkey matches Some(v) ==> s.annotate_hotkey == v
            &&& r.annotate_hotkey is None ==> s.annotate_hotkey == d.annotate_hotkey
            &&& r.launch_at_startup matches Some(v) ==> s.launch_at_startup == v
            &&& r.launch_at_startup is None ==> s.launch_at_startup
            &&& r.include_cursor matches Some(v) ==> s.include_cursor == v
            &&& r.include_cursor is None ==> s.include_cursor
            &&& r.copy_to_clipboard matches Some(v) ==> s.copy_to_clipboard == v
            &&& r.copy_to_clipboard is None ==> s.copy_to_clipboard
            &&& s.output_dir == r.output_dir
            &&& r.arrow_shadow matches Some(v) ==> s.arrow_shadow == v
            &&& r.arrow_shadow is None ==> s.arrow_shadow
            &&& r.arrow_advanced_color matches Some(v) ==> s.arrow_advanced_color == v
            &&& r.arrow_advanced_color is None ==> !s.arrow_advanced_color
        }),
{
}

/// New settings bind two different chords, PrintScreen alone and Ctrl with X.
pub proof fn law_first_hotkeys()
    ensures
        defaults().hotkey == crate::hotkeys::bindings::KeyCode::PrintScreen.name(),
        defaults().annotate_hotkey == "Ctrl+"@ + crate::hotkeys::bindings::KeyCode::Letter(
            'X',
        ).name(),
        defaults().output_dir is None,
{
    reveal_strlit("Ctrl+");
    reveal_strlit("Ctrl+X");
    assert("Ctrl+X"@ =~= "Ctrl+"@ + seq!['X']);
}

/// A settings file in its place is used; an old one only where there is none,
/// and a broken one in its place is not replaced by an old one.
pub proof fn law_old_settings_are_a_fallback(current: Stored, legacy: Stored)
    ensures
        current matches Stored::Parsed(s) ==> chosen(current, legacy) == s@,
        current is Malformed ==> chosen(current, legacy) == defaults(),
        current is Missing ==> (legacy matches Stored::Parsed(s) ==> chosen(current, legacy) == s@),
        current is Missing && !(legacy is Parsed) ==> chosen(current, legacy) == defaults(),
{
}

} // verus!
