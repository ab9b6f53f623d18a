//! The settings window: recording a chord, checking the form and what Save,
//! Reset and the number fields do.
use vstd::prelude::*;
use crate::hotkeys::bindings::{canonical_text, letter_or_digit, parse, Chord, KeyCode};
use crate::settings::{Settings, SettingsView};
use crate::text::{copy_optional, from_chars, is_text, push_text, slice_chars, to_chars, trim_chars, CharClass};

verus! {

// ---------------------------------------------------------------------------
// Recording a chord
// ---------------------------------------------------------------------------

/// A key press as the window sees it.
#[derive(Debug)]
pub enum PressedKey {
    /// A key that types text.
    Character(String),
    /// A key known by name.
    Named(KeyCode),
    /// Modifiers, media keys and the like.
    Other,
}

/// The modifiers held during a key press.
#[derive(Debug, Clone, Copy, PartialEq, Eq, Structural)]
pub struct Held {
    pub ctrl: bool,
    pub shift: bool,
    pub alt: bool,
    pub meta: bool,
}

/// Whether a key known by name can be recorded.
pub open spec fn is_recordable(k: KeyCode) -> bool {
    match k {
        KeyCode::Escape | KeyCode::Space | KeyCode::Letter(_) | KeyCode::Digit(_) => false,
        KeyCode::F(n) => 1 <= n <= 12,
        _ => true,
    }
}

/// The key of a press: a single ASCII letter or digit, or one of the named keys
/// that can be recorded.
pub open spec fn key_pressed(k: PressedKey) -> Option<KeyCode> {
    match k {
        PressedKey::Character(s) => {
            let t = crate::text::trim(s@, CharClass::Whitespace);
            if t.len() == 1 {
                crate::hotkeys::bindings::character_key(t[0])
            } else {
                None
            }
        },
        PressedKey::Named(k) => if is_recordable(k) {
            Some(k)
        } else {
            None
        },
        PressedKey::Other => None,
    }
}

/// The key of a press, if it can be recorded.
pub fn key_token(k: &PressedKey) -> (r: Option<KeyCode>)
    ensures
        r == key_pressed(*k),
        r matches Some(code) ==> code.wf(),
{
    match k {
        PressedKey::Character(s) => {
            let chars = to_chars(s.as_str());
            let t = trim_chars(chars.as_slice(), CharClass::Whitespace);
            if t.len() == 1 {
                letter_or_digit(t[0])
            } else {
                None
            }
        },
        PressedKey::Named(code) => match *code {
            KeyCode::Escape | KeyCode::Space | KeyCode::Letter(_) | KeyCode::Digit(_) => None,
            KeyCode::F(n) => if 1 <= n && n <= 12 {
                Some(*code)
            } else {
                None
            },
            _ => Some(*code),
        },
        PressedKey::Other => None,
    }
}

/// The chord of a key press with the modifiers held.
pub open spec fn recorded(k: PressedKey, held: Held) -> Option<Chord> {
    match key_pressed(k) {
        Some(key) => Some(
            Chord { ctrl: held.ctrl, shift: held.shift, alt: held.alt, meta: held.meta, key },
        ),
        None => None,
    }
}

/// The chord string of a key press, in the form that the parser takes.
pub fn format_chord(k: &PressedKey, held: Held) -> (r: Option<String>)
    ensures
        match r {
            Some(t) => recorded(*k, held) is Some && t@ == crate::hotkeys::bindings::canonical(
                recorded(*k, held)->Some_0,
            ),
            None => recorded(*k, held) is None,
        },
{
    match key_token(k) {
        Some(key) => Some(
            canonical_text(
                Chord { ctrl: held.ctrl, shift: held.shift, alt: held.alt, meta: held.meta, key },
            ),
        ),
        None => None,
    }
}

/// Every recorded chord passes the check that Save makes, and stands for the
/// keys that were pressed.
pub proof fn law_recorded_chord_parses(k: PressedKey, held: Held)
    requires
        recorded(k, held) is Some,
    ensures
        crate::hotkeys::bindings::parsed(
            crate::hotkeys::bindings::canonical(recorded(k, held)->Some_0),
        ) == Ok::<Chord, crate::hotkeys::bindings::ChordErrorView>(recorded(k, held)->Some_0),
{
    crate::hotkeys::bindings::law_canonical_form_reparses(recorded(k, held)->Some_0);
}

/// The hotkey field that is being recorded.
#[derive(Debug, Clone, Copy, PartialEq, Eq, Structural)]
pub enum RecordTarget {
    Fullscreen,
    Annotate,
    Gif,
}

/// The state of recording: which field, and the chord captured so far.
#[derive(Debug)]
pub struct Recorder {
    pub recording: Option<RecordTarget>,
    pub captured: Option<String>,
}

impl Recorder {
    /// The captured chord.
    pub open spec fn chord(&self) -> Option<Seq<char>> {
        crate::text::optional_text(self.captured)
    }

    /// No field is being recorded.
    pub fn new() -> (r: Recorder)
        ensures
            r.recording is None,
            r.chord() is None,
    {
        Recorder { recording: None, captured: None }
    }

    /// A click on a field starts recording it.
    pub fn start(&mut self, target: RecordTarget)
        ensures
            final(self).recording == Some(target),
            final(self).chord() is None,
    {
        self.recording = Some(target);
        self.captured = None;
    }

    /// A key press on a field. Escape ends the recording; a key that can be
    /// recorded replaces what was captured; any other key is ignored. A press on a
    /// field that is not being recorded does nothing.
    pub fn key_down(&mut self, target: RecordTarget, key: &PressedKey, held: Held)
        ensures
            old(self).recording != Some(target) ==> *final(self) == *old(self),
            old(self).recording == Some(target) ==> {
                if *key == PressedKey::Named(KeyCode::Escape) {
                    final(self).recording is None && final(self).chord() is None
                } else {
                    &&& final(self).recording == Some(target)
                    &&& final(self).chord() == match recorded(*key, held) {
                        Some(c) => Some(crate::hotkeys::bindings::canonical(c)),
                        None => old(self).chord(),
                    }
                }
            },
    {
        if self.recording != Some(target) {
            return;
        }
        match key {
            PressedKey::Named(KeyCode::Escape) => {
                self.recording = None;
                self.captured = None;
                return;
            },
            _ => {},
        }
        match format_chord(key, held) {
            Some(c) => {
                self.captured = Some(c);
            },
            None => {},
        }
    }

    /// Confirm takes the captured chord over into the field and ends the
    /// recording; the field is unchanged if nothing was captured.
    pub fn confirm(&mut self, field: &mut String)
        ensures
            final(self).recording is None,
            final(self).chord() is None,
            final(field)@ == match old(self).chord() {
                Some(c) => c,
                None => old(field)@,
            },
    {
        match &self.captured {
            Some(c) => {
                *field = c.clone();
            },
            None => {},
        }
        self.recording = None;
        self.captured = None;
    }

    /// Cancel ends the recording.
    pub fn cancel(&mut self)
        ensures
            final(self).recording is None,
            final(self).chord() is None,
    {
        self.recording = None;
        self.captured = None;
    }

    /// What the recording field shows.
    pub fn prompt(&self) -> (r: String)
        ensures
            r@ == match self.chord() {
                Some(c) => "Captured: "@ + c,
                None => "Press combo\u{2026}"@,
            },
    {
        match &self.captured {
            Some(c) => {
                let mut out = to_chars("Captured: ");
                push_text(&mut out, c.as_str());
                from_chars(out.as_slice())
            },
            None => "Press combo\u{2026}".to_owned(),
        }
    }
}

// ---------------------------------------------------------------------------
// Number fields
// ---------------------------------------------------------------------------

/// The value of a run of decimal digits.
pub open spec fn digits_value(s: Seq<char>) -> nat
    decreases s.len(),
{
    if s.len() == 0 {
        0
    } else {
        digits_value(s.drop_last()) * 10 + (s.last() as nat - '0' as nat) as nat
    }
}

/// The digits of a typed number: one plus sign in front is left out.
pub open spec fn digits_of(s: Seq<char>) -> Seq<char> {
    if s.len() > 0 && s[0] == '+' {
        s.subrange(1, s.len() as int)
    } else {
        s
    }
}

/// The number that was typed, if it is one.
pub open spec fn typed_number(s: Seq<char>) -> Option<nat> {
    let d = digits_of(s);
    if d.len() > 0 && (forall|i: int| 0 <= i < d.len() ==> crate::text::is_ascii_digit(
        #[trigger] d[i],
    )) {
        Some(digits_value(d))
    } else {
        None
    }
}

/// A longer run of digits is worth at least as much.
proof fn lemma_digits_grow(s: Seq<char>, i: int)
    requires
        0 <= i <= s.len(),
        forall|k: int| 0 <= k < s.len() ==> crate::text::is_ascii_digit(#[trigger] s[k]),
    ensures
        digits_value(s.take(i)) <= digits_value(s),
    decreases s.len() - i,
{
    if i < s.len() {
        assert(s.take(i + 1).drop_last() =~= s.take(i));
        assert(crate::text::is_ascii_digit(s[i]));
        lemma_digits_grow(s, i + 1);
    } else {
        assert(s.take(i) =~= s);
    }
}

/// Reads a number of at most `most`.
pub fn parse_number(s: &str, most: u32) -> (r: Option<u32>)
    ensures
        match r {
            Some(n) => n <= most && typed_number(s@) == Some(n as nat),
            None => match typed_number(s@) {
                Some(n) => n > most,
                None => true,
            },
        },
{
    let chars = to_chars(s);
    let from: usize = if chars.len() > 0 && chars[0] == '+' {
        1
    } else {
        0
    };
    let d = slice_chars(chars.as_slice(), from, chars.len());
    proof {
        if from == 0 {
            assert(d@ =~= chars@);
        }
        assert(d@ == digits_of(s@));
    }
    if d.len() == 0 {
        return None;
    }
    let mut k: usize = 0;
    while k < d.len()
        invariant
            k <= d@.len(),
            d@ == digits_of(s@),
            forall|i: int| 0 <= i < k ==> crate::text::is_ascii_digit(#[trigger] d@[i]),
        decreases d@.len() - k,
    {
        if !('0' <= d[k] && d[k] <= '9') {
            assert(!crate::text::is_ascii_digit(digits_of(s@)[k as int]));
            return None;
        }
        k += 1;
    }
    let mut value: u64 = 0;
    let mut i: usize = 0;
    assert(d@.take(0) =~= Seq::empty());
    while i < d.len()
        invariant
            i <= d@.len(),
            d@.len() > 0,
            d@ == digits_of(s@),
            forall|k: int| 0 <= k < d@.len() ==> crate::text::is_ascii_digit(#[trigger] d@[k]),
            value == digits_value(d@.take(i as int)),
            value <= most,
        decreases d@.len() - i,
    {
        assert(d@.take(i + 1).drop_last() =~= d@.take(i as int));
        assert(crate::text::is_ascii_digit(d@[i as int]));
        value = value * 10 + (d[i] as u64 - '0' as u64);
        if value > most as u64 {
            proof {
                lemma_digits_grow(d@, i + 1);
            }
            return None;
        }
        i += 1;
    }
    assert(d@.take(i as int) =~= d@);
    Some(value as u32)
}

/// `v` held between two bounds.
pub open spec fn bounded(v: int, low: int, high: int) -> int {
    if v < low {
        low
    } else if v > high {
        high
    } else {
        v
    }
}

/// Holds a value between two bounds.
pub fn bound(v: u32, low: u32, high: u32) -> (r: u32)
    requires
        low <= high,
    ensures
        r == bounded(v as int, low as int, high as int),
{
    if v < low {
        low
    } else if v > high {
        high
    } else {
        v
    }
}

/// A number field after typing: a number of the field's type, at most `most`, is held
/// between the bounds; anything else leaves the field alone.
pub open spec fn typed_into(value: int, typed: Seq<char>, most: int, low: int, high: int) -> int {
    match typed_number(typed) {
        Some(n) => if n <= most {
            bounded(n as int, low, high)
        } else {
            value
        },
        None => value,
    }
}

/// Typing into a number field.
pub fn number_input(value: u32, typed: &str, most: u32, low: u32, high: u32) -> (r: u32)
    requires
        low <= high,
    ensures
        r == typed_into(value as int, typed@, most as int, low as int, high as int),
{
    match parse_number(typed, most) {
        Some(n) => bound(n, low, high),
        None => value,
    }
}

// ---------------------------------------------------------------------------
// The form
// ---------------------------------------------------------------------------

/// The settings of GIF recording.
#[derive(Debug)]
pub struct GifSettings {
    pub hotkey: String,
    pub fps: u32,
    /// 0 means for ever.
    pub loop_count: u16,
    pub max_seconds: u32,
    pub record_cursor: bool,
}

/// The GIF settings as plain values.
#[verifier::ext_equal]
pub struct GifSettingsView {
    pub hotkey: Seq<char>,
    pub fps: u32,
    pub loop_count: u16,
    pub max_seconds: u32,
    pub record_cursor: bool,
}

impl View for GifSettings {
    type V = GifSettingsView;

    open spec fn view(&self) -> GifSettingsView {
        GifSettingsView {
            hotkey: self.hotkey@,
            fps: self.fps,
            loop_count: self.loop_count,
            max_seconds: self.max_seconds,
            record_cursor: self.record_cursor,
        }
    }
}

impl Clone for GifSettings {
    fn clone(&self) -> (r: GifSettings)
        ensures
            r@ == self@,
    {
        GifSettings {
            hotkey: self.hotkey.clone(),
            fps: self.fps,
            loop_count: self.loop_count,
            max_seconds: self.max_seconds,
            record_cursor: self.record_cursor,
        }
    }
}

impl GifSettings {
    /// Typing into the row of the frame rate: 5 to 60 frames a second.
    pub fn type_fps(&mut self, typed: &str)
        ensures
            final(self)@ == (GifSettingsView {
                fps: typed_into(old(self).fps as int, typed@, u32::MAX as int, 5, 60) as u32,
                ..old(self)@
            }),
    {
        self.fps = number_input(self.fps, typed, u32::MAX, 5, 60);
    }

    /// Typing into the row of the loop count, a 16-bit number: 0 to 10000 rounds.
    pub fn type_loop_count(&mut self, typed: &str)
        ensures
            final(self)@ == (GifSettingsView {
                loop_count: typed_into(
                    old(self).loop_count as int,
                    typed@,
                    u16::MAX as int,
                    0,
                    10_000,
                ) as u16,
                ..old(self)@
            }),
    {
        let n: u32 = number_input(self.loop_count as u32, typed, u16::MAX as u32, 0, 10_000);
        self.loop_count = n as u16;
    }

    /// Typing into the row of the longest recording: 1 to 600 seconds.
    pub fn type_max_seconds(&mut self, typed: &str)
        ensures
            final(self)@ == (GifSettingsView {
                max_seconds: typed_into(
                    old(self).max_seconds as int,
                    typed@,
                    u32::MAX as int,
                    1,
                    600,
                ) as u32,
                ..old(self)@
            }),
    {
        self.max_seconds = number_input(self.max_seconds, typed, u32::MAX, 1, 600);
    }
}

/// The contents of the form.
#[derive(Debug)]
pub struct SettingsForm {
    pub settings: Settings,
    pub gif: GifSettings,
    /// The text of the output folder field.
    pub output_dir: String,
    pub status: String,
}

/// What Save is to store.
#[derive(Debug)]
pub struct SavePlan {
    /// This directory is to be created first; if that fails, nothing is stored.
    pub create: Option<String>,
    pub settings: Settings,
    pub gif: GifSettings,
}

/// The output folder that the form asks for: none if the field is blank.
pub open spec fn asked_dir(field: Seq<char>) -> Option<Seq<char>> {
    let t = crate::text::trim(field, CharClass::Whitespace);
    if t.len() == 0 {
        None
    } else {
        Some(t)
    }
}

/// Reads the output folder field.
pub fn read_dir(field: &str) -> (r: Option<String>)
    ensures
        crate::text::optional_text(r) == asked_dir(field@),
{
    let chars = to_chars(field);
    let t = trim_chars(chars.as_slice(), CharClass::Whitespace);
    if t.len() == 0 {
        None
    } else {
        Some(from_chars(t.as_slice()))
    }
}

/// Why the chord of a field is refused.
pub open spec fn chord_complaint(what: Seq<char>, chord: Seq<char>) -> Option<Seq<char>> {
    match crate::hotkeys::bindings::parsed(chord) {
        Ok(_) => None,
        Err(e) => Some(what + " hotkey invalid: "@ + e.message()),
    }
}

fn check_chord(what: &str, chord: &str) -> (r: Option<String>)
    ensures
        crate::text::optional_text(r) == chord_complaint(what@, chord@),
{
    match parse(chord) {
        Ok(_) => None,
        Err(e) => {
            let mut out = to_chars(what);
            push_text(&mut out, " hotkey invalid: ");
            let m = e.message();
            push_text(&mut out, m.as_str());
            Some(from_chars(out.as_slice()))
        },
    }
}

impl SettingsForm {
    /// The first complaint about the chords, in the order of the fields.
    pub open spec fn complaint(&self) -> Option<Seq<char>> {
        let a = chord_complaint("Fullscreen"@, self.settings.hotkey@);
        let b = chord_complaint("Annotate"@, self.settings.annotate_hotkey@);
        if a is Some {
            a
        } else if b is Some {
            b
        } else {
            chord_complaint("GIF"@, self.gif.hotkey@)
        }
    }

    /// The form for these settings.
    pub fn new(settings: Settings, gif: GifSettings) -> (r: SettingsForm)
        ensures
            r.settings@ == settings@,
            r.gif@ == gif@,
            r.output_dir@ == (match crate::text::optional_text(settings.output_dir) {
                Some(d) => d,
                None => Seq::empty(),
            }),
            r.status@ == Seq::<char>::empty(),
    {
        let output_dir = match &settings.output_dir {
            Some(d) => d.clone(),
            None => String::new(),
        };
        SettingsForm { settings, gif, output_dir, status: String::new() }
    }

    /// Save: every chord is checked before anything is stored. The frame rate is
    /// held between 5 and 60 and a recording lasts at least a second.
    pub fn save(&mut self) -> (r: Option<SavePlan>)
        ensures
            match r {
                Some(plan) => {
                    &&& old(self).complaint() is None
                    &&& *final(self) == *old(self)
                    &&& crate::text::optional_text(plan.create) == asked_dir(old(self).output_dir@)
                    &&& plan.settings@ == (SettingsView {
                        output_dir: asked_dir(old(self).output_dir@),
                        ..old(self).settings@
                    })
                    &&& plan.gif@ == (GifSettingsView {
                        fps: bounded(old(self).gif.fps as int, 5, 60) as u32,
                        max_seconds: if old(self).gif.max_seconds == 0 {
                            1
                        } else {
                            old(self).gif.max_seconds
                        },
                        ..old(self).gif@
                    })
                },
                None => {
                    &&& old(self).complaint() == Some(final(self).status@)
                    &&& final(self).settings == old(self).settings
                    &&& final(self).gif == old(self).gif
                    &&& final(self).output_dir == old(self).output_dir
                },
            },
    {
        let mut complaint = check_chord("Fullscreen", self.settings.hotkey.raw.as_str());
        if complaint.is_none() {
            complaint = check_chord("Annotate", self.settings.annotate_hotkey.raw.as_str());
        }
        if complaint.is_none() {
            complaint = check_chord("GIF", self.gif.hotkey.as_str());
        }
        match complaint {
            Some(c) => {
                self.status = c;
                return None;
            },
            None => {},
        }
        let dir = read_dir(self.output_dir.as_str());
        let mut settings = self.settings.clone();
        settings.output_dir = copy_optional(&dir);
        let mut gif = self.gif.clone();
        gif.fps = bound(gif.fps, 5, 60);
        if gif.max_seconds == 0 {
            gif.max_seconds = 1;
        }
        Some(SavePlan { create: dir, settings, gif })
    }

    /// The output folder could not be created.
    pub fn folder_failed(&mut self, why: &str)
        ensures
            final(self).status@ == "Output folder unusable: "@ + why@,
            final(self).settings == old(self).settings,
            final(self).gif == old(self).gif,
            final(self).output_dir == old(self).output_dir,
    {
        let mut out = to_chars("Output folder unusable: ");
        push_text(&mut out, why);
        self.status = from_chars(out.as_slice());
    }

    /// The settings could not be stored.
    pub fn save_failed(&mut self, why: &str)
        ensures
            final(self).status@ == "Save failed: "@ + why@,
            final(self).settings == old(self).settings,
            final(self).gif == old(self).gif,
            final(self).output_dir == old(self).output_dir,
    {
        let mut out = to_chars("Save failed: ");
        push_text(&mut out, why);
        self.status = from_chars(out.as_slice());
    }

    /// Reset puts the defaults into the form; nothing is stored yet.
    pub fn reset(&mut self, gif: GifSettings)
        ensures
            final(self).settings@ == crate::settings::defaults(),
            final(self).gif@ == gif@,
            final(self).output_dir@ == Seq::<char>::empty(),
            final(self).status@
                == "Reset \u{2014} click Save to apply, Cancel to discard."@,
    {
        self.settings = Settings::default();
        self.gif = gif;
        self.output_dir = String::new();
        self.status = "Reset \u{2014} click Save to apply, Cancel to discard.".to_owned();
    }

    /// Whether the status line is shown as an error: it says something, and not
    /// that the form was reset.
    pub fn is_error(&self) -> (r: bool)
        ensures
            r == (self.status@.len() > 0 && !crate::text::occurs_at(
                self.status@,
                "Reset"@,
                0,
            )),
    {
        proof {
            reveal_strlit("Reset");
        }
        let s = to_chars(self.status.as_str());
        if s.len() == 0 {
            return false;
        }
        if s.len() < 5 {
            return true;
        }
        let head = slice_chars(s.as_slice(), 0, 5);
        !is_text(head.as_slice(), "Reset")
    }
}

/// The stored frame rate is one that the form allows, and storing it again does
/// not change it.
pub proof fn law_stored_fps_in_range(v: u32)
    ensures
        5 <= bounded(v as int, 5, 60) <= 60,
        bounded(bounded(v as int, 5, 60), 5, 60) == bounded(v as int, 5, 60),
{
}

/// A number kept within limits lies between them; one between them is kept, and
/// one outside becomes the limit that it passed.
pub proof fn law_bounded_to_the_limits(v: int, low: int, high: int)
    requires
        low <= high,
    ensures
        low <= bounded(v, low, high) <= high,
        low <= v <= high ==> bounded(v, low, high) == v,
        v <= low ==> bounded(v, low, high) == low,
        v >= high ==> bounded(v, low, high) == high,
{
}

proof fn lemma_digits_value(s: Seq<char>)
    requires
        forall|i: int| 0 <= i < s.len() ==> crate::text::is_ascii_digit(#[trigger] s[i]),
    ensures
        digits_value(s) == crate::text::number_of(s),
    decreases s.len(),
{
    if s.len() > 0 {
        assert(crate::text::is_ascii_digit(s[s.len() - 1]));
        assert forall|i: int| 0 <= i < s.drop_last().len() implies crate::text::is_ascii_digit(
            #[trigger] s.drop_last()[i],
        ) by {
            assert(s.drop_last()[i] == s[i]);
        }
        lemma_digits_value(s.drop_last());
    }
}

/// A number that is written out is read back, also behind a plus sign; a text
/// that holds anything but digits, or nothing, is no number.
pub proof fn law_typed_numbers_read_back(n: nat, s: Seq<char>)
    ensures
        typed_number(crate::text::decimal(n)) == Some(n),
        typed_number(seq!['+'] + crate::text::decimal(n)) == Some(n),
        s.len() == 0 ==> typed_number(s) is None,
        (exists|i: int|
            0 < i < s.len() && !crate::text::is_ascii_digit(#[trigger] s[i])) ==> typed_number(
            s,
        ) is None,
        s.len() > 0 && !crate::text::is_ascii_digit(s[0]) && s[0] != '+' ==> typed_number(s) is None,
{
    crate::text::law_decimals_read_back(n);
    let d = crate::text::decimal(n);
    lemma_digits_value(d);
    assert(crate::text::is_ascii_digit(d[0]));
    assert((seq!['+'] + d).subrange(1, d.len() as int + 1) =~= d);
    if exists|i: int| 0 < i < s.len() && !crate::text::is_ascii_digit(#[trigger] s[i]) {
        let i = choose|i: int| 0 < i < s.len() && !crate::text::is_ascii_digit(#[trigger] s[i]);
        if s[0] == '+' {
            assert(digits_of(s)[i - 1] == s[i]);
        } else {
            assert(digits_of(s)[i] == s[i]);
        }
    }
    if s.len() > 0 && s[0] != '+' {
        assert(digits_of(s)[0] == s[0]);
    }
}

/// Typing a number sets it within its limits; typing anything else, or a number
/// too large to hold, keeps the old one.
pub proof fn law_typing_sets_within_limits(
    value: int,
    typed: Seq<char>,
    most: int,
    low: int,
    high: int,
)
    requires
        low <= high,
    ensures
        typed_number(typed) is None ==> typed_into(value, typed, most, low, high) == value,
        typed_number(typed) matches Some(n) ==> {
            &&& n > most ==> typed_into(value, typed, most, low, high) == value
            &&& n <= most ==> low <= typed_into(value, typed, most, low, high) <= high
            &&& n <= most && low <= n <= high ==> typed_into(value, typed, most, low, high) == n
            &&& n <= most && n < low ==> typed_into(value, typed, most, low, high) == low
            &&& n <= most && n > high ==> typed_into(value, typed, most, low, high) == high
        },
{
}

/// A chord is recorded with exactly the modifiers that are held. Escape, the
/// space bar, modifiers alone and keys without a name here record nothing.
pub proof fn law_recorded_with_what_is_held(k: PressedKey, held: Held)
    ensures
        recorded(k, held) matches Some(c) ==> c.ctrl == held.ctrl && c.shift == held.shift && c.alt
            == held.alt && c.meta == held.meta && Some(c.key) == key_pressed(k),
        recorded(k, held) is Some <==> key_pressed(k) is Some,
        k is Other ==> key_pressed(k) is None,
        key_pressed(PressedKey::Named(KeyCode::Escape)) is None,
        key_pressed(PressedKey::Named(KeyCode::Space)) is None,
        k matches PressedKey::Named(n) ==> (key_pressed(k) is Some ==> key_pressed(k) == Some(n)),
        k matches PressedKey::Named(n) ==> (n is PrintScreen || n is Tab || n is Enter
            || n is Backspace || n is Delete || n is Insert || n is Home || n is End || n is PageUp
            || n is PageDown || n is ArrowUp || n is ArrowDown || n is ArrowLeft || n is ArrowRight
            ==> key_pressed(k) == Some(n)),
        k matches PressedKey::Named(KeyCode::F(n)) ==> (key_pressed(k) is Some <==> 1 <= n && n
            <= 12),
        k matches PressedKey::Character(t) ==> (key_pressed(k) is Some ==> crate::text::trim(
            t@,
            CharClass::Whitespace,
        ).len() == 1),
{
}

/// A folder that is left blank is none; otherwise it is what was typed without
/// the white space round it.
pub proof fn law_blank_folder_is_none(field: Seq<char>)
    ensures
        asked_dir(field) is None <==> crate::text::trim(field, CharClass::Whitespace).len() == 0,
        asked_dir(field) matches Some(t) ==> t == crate::text::trim(field, CharClass::Whitespace),
{
}

/// The form complains about the first of its three chords that cannot be read,
/// by its name, and not at all if each can be.
pub proof fn law_form_complains_about_the_first(form: SettingsForm)
    ensures
        ({
            let a = crate::hotkeys::bindings::parsed(form.settings.hotkey@);
            let b = crate::hotkeys::bindings::parsed(form.settings.annotate_hotkey@);
            let c = crate::hotkeys::bindings::parsed(form.gif.hotkey@);
            &&& form.complaint() is None <==> a is Ok && b is Ok && c is Ok
            &&& a matches Err(e) ==> form.complaint() == Some(
                "Fullscreen"@ + " hotkey invalid: "@ + e.message(),
            )
            &&& a is Ok && b is Err ==> form.complaint() == Some(
                "Annotate"@ + " hotkey invalid: "@ + b->Err_0.message(),
            )
            &&& a is Ok && b is Ok && c is Err ==> form.complaint() == Some(
                "GIF"@ + " hotkey invalid: "@ + c->Err_0.message(),
            )
        }),
{
}

/// A key that types one letter or digit, with white space round it or not, is
/// that letter's or digit's key.
pub proof fn law_typed_characters_are_keys(t: String, c: char)
    requires
        crate::text::trim(t@, CharClass::Whitespace) == seq![c],
    ensures
        key_pressed(PressedKey::Character(t)) == crate::hotkeys::bindings::character_key(c),
        key_pressed(PressedKey::Character(t)) is Some <==> crate::text::is_ascii_alnum(c),
{
    crate::hotkeys::bindings::law_characters_are_keys(c);
}

} // verus!
