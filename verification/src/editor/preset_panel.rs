//! The panel of presets in the classic editor: the list, the form of a draft, and
//! what is to be written when a draft is saved.
use vstd::prelude::*;
use crate::hotkeys::bindings::{parse_chord, ChordError, ChordErrorView};
use crate::presets::{Preset, PresetStore, PresetView};
use crate::text::{
    decimal_chars, from_chars, optional_text, push_chars, push_text, same_str, to_chars,
    trim_chars, CharClass,
};

verus! {

/// What `Debug` of the standard library writes for a text.
pub uninterp spec fn debug_text(s: Seq<char>) -> Seq<char>;

/// Calls `format!` with `{:?}` on a text, which puts it in double quotes and writes
/// some characters as escape sequences. Which ones, and how, is not stated here.
#[verifier::external_body]
pub(crate) fn quoted(s: &str) -> (r: String)
    ensures
        r@ == debug_text(s@),
{
    format!("{:?}", s)
}

/// What the buttons of the list ask for.
#[derive(Debug)]
pub enum PresetAction {
    Edit(usize),
    Duplicate(usize),
    Delete(usize),
    CaptureNow(String),
}

/// The panel.
#[derive(Debug)]
pub struct PresetPanel {
    pub store: PresetStore,
    /// The preset in the form and its place in the list; `usize::MAX` if it is new.
    pub draft: Option<(usize, Preset)>,
    pub status: String,
    /// Whether the presets have changed since the window opened.
    pub dirty: bool,
}

/// The panel as plain values.
#[verifier::ext_equal]
pub struct PanelView {
    pub presets: Seq<PresetView>,
    pub draft: Option<(usize, PresetView)>,
    pub status: Seq<char>,
    pub dirty: bool,
}

/// The views of a list of presets.
pub open spec fn preset_views(v: Seq<Preset>) -> Seq<PresetView> {
    v.map_values(|p: Preset| p@)
}

/// The view of a draft, if there is one.
pub open spec fn draft_view(d: Option<(usize, Preset)>) -> Option<(usize, PresetView)> {
    match d {
        Some(d) => Some((d.0, d.1@)),
        None => None,
    }
}

impl View for PresetPanel {
    type V = PanelView;

    open spec fn view(&self) -> PanelView {
        PanelView {
            presets: preset_views(self.store.presets@),
            draft: draft_view(self.draft),
            status: self.status@,
            dirty: self.dirty,
        }
    }
}

/// What is to be done on disk.
#[derive(Debug)]
pub enum PanelWork {
    /// Nothing.
    Idle,
    /// Delete the file of the preset with this slug, and leave the sign that the
    /// hotkeys are to be bound anew.
    DeleteFile(String),
    /// Leave the sign that asks for a capture with this preset.
    QueueCapture(String),
    /// Write this preset's file, and if that went well delete the file of the slug.
    WriteFile { preset: Preset, stale: Option<String> },
}

/// The work as plain values.
#[verifier::ext_equal]
pub enum WorkView {
    Idle,
    DeleteFile(Seq<char>),
    QueueCapture(Seq<char>),
    WriteFile { preset: PresetView, stale: Option<Seq<char>> },
}

impl View for PanelWork {
    type V = WorkView;

    open spec fn view(&self) -> WorkView {
        match *self {
            PanelWork::Idle => WorkView::Idle,
            PanelWork::DeleteFile(slug) => WorkView::DeleteFile(slug@),
            PanelWork::QueueCapture(name) => WorkView::QueueCapture(name@),
            PanelWork::WriteFile { preset, stale } => WorkView::WriteFile {
                preset: preset@,
                stale: optional_text(stale),
            },
        }
    }
}

/// The action as plain values.
pub enum ActionView {
    Edit(usize),
    Duplicate(usize),
    Delete(usize),
    CaptureNow(Seq<char>),
}

impl View for PresetAction {
    type V = ActionView;

    open spec fn view(&self) -> ActionView {
        match *self {
            PresetAction::Edit(i) => ActionView::Edit(i),
            PresetAction::Duplicate(i) => ActionView::Duplicate(i),
            PresetAction::Delete(i) => ActionView::Delete(i),
            PresetAction::CaptureNow(name) => ActionView::CaptureNow(name@),
        }
    }
}

// ---------------------------------------------------------------------------
// The list
// ---------------------------------------------------------------------------

/// The second line of an entry.
pub open spec fn entry_line(p: PresetView) -> Seq<char> {
    p.target.text() + "  \u{00b7}  delay "@ + crate::text::decimal(p.delay_ms as nat)
        + "ms  \u{00b7}  cursor: "@ + (if p.include_cursor {
        "on"@
    } else {
        "off"@
    }) + "  \u{00b7}  "@ + p.post_action.text()
}

/// The second line of an entry: target, delay, cursor and what happens after the
/// capture.
pub fn describe(p: &Preset) -> (r: String)
    ensures
        r@ == entry_line(p@),
{
    let mut out = to_chars(p.target.label());
    push_text(&mut out, "  \u{00b7}  delay ");
    let delay = decimal_chars(p.delay_ms as u64);
    push_chars(&mut out, delay.as_slice());
    push_text(&mut out, "ms  \u{00b7}  cursor: ");
    if p.include_cursor {
        push_text(&mut out, "on");
    } else {
        push_text(&mut out, "off");
    }
    push_text(&mut out, "  \u{00b7}  ");
    push_text(&mut out, p.post_action.label());
    from_chars(out.as_slice())
}

/// The copy of a preset that can be edited: it has another name, and no hotkey, for
/// that stays with the first one.
pub open spec fn duplicate_of(p: PresetView) -> PresetView {
    PresetView { name: p.name + " copy"@, hotkey: Seq::empty(), ..p }
}

/// The panel after a button of the list.
pub open spec fn acted(s: PanelView, a: ActionView) -> PanelView {
    match a {
        ActionView::Edit(i) => if i < s.presets.len() {
            PanelView { draft: Some((i, s.presets[i as int])), ..s }
        } else {
            s
        },
        ActionView::Duplicate(i) => if i < s.presets.len() {
            PanelView { draft: Some((usize::MAX, duplicate_of(s.presets[i as int]))), ..s }
        } else {
            s
        },
        ActionView::Delete(i) => if i < s.presets.len() {
            PanelView {
                presets: s.presets.remove(i as int),
                status: "Deleted preset "@ + debug_text(s.presets[i as int].name),
                dirty: true,
                ..s
            }
        } else {
            s
        },
        ActionView::CaptureNow(_) => s,
    }
}

/// What a button of the list asks of the disk.
pub open spec fn work_of(s: PanelView, a: ActionView) -> WorkView {
    match a {
        ActionView::Delete(i) => if i < s.presets.len() {
            WorkView::DeleteFile(crate::presets::slug_of(s.presets[i as int].name))
        } else {
            WorkView::Idle
        },
        ActionView::CaptureNow(name) => WorkView::QueueCapture(name),
        _ => WorkView::Idle,
    }
}

/// The message about a capture that was asked for: `failure` says why the sign could
/// not be left.
pub open spec fn queued_message(name: Seq<char>, failure: Option<Seq<char>>) -> Seq<char> {
    match failure {
        Some(e) => "Capture request failed: "@ + e,
        None => "Capture queued: "@ + name + " (run this hotkey from the tray to confirm)."@,
    }
}

impl PresetPanel {
    /// The panel of a store.
    pub fn new(store: PresetStore) -> (r: PresetPanel)
        ensures
            r@ == (PanelView {
                presets: preset_views(store.presets@),
                draft: None,
                status: Seq::empty(),
                dirty: false,
            }),
    {
        PresetPanel { store, draft: None, status: String::new(), dirty: false }
    }

    /// A button of the list.
    pub fn apply_preset_action(&mut self, action: PresetAction) -> (r: PanelWork)
        ensures
            final(self)@ == acted(old(self)@, action@),
            r@ == work_of(old(self)@, action@),
    {
        match action {
            PresetAction::Edit(i) => {
                if i < self.store.presets.len() {
                    let p = self.store.presets[i].clone();
                    self.draft = Some((i, p));
                }
                PanelWork::Idle
            },
            PresetAction::Duplicate(i) => {
                if i < self.store.presets.len() {
                    let mut copy = self.store.presets[i].clone();
                    let mut name = to_chars(copy.name.as_str());
                    push_text(&mut name, " copy");
                    copy.name = from_chars(name.as_slice());
                    copy.hotkey = String::new();
                    assert(copy@ =~= duplicate_of(self.store.presets@[i as int]@));
                    self.draft = Some((usize::MAX, copy));
                }
                PanelWork::Idle
            },
            PresetAction::Delete(i) => {
                if i < self.store.presets.len() {
                    let removed = self.store.presets.remove(i);
                    let mut status = to_chars("Deleted preset ");
                    let name = quoted(removed.name.as_str());
                    push_text(&mut status, name.as_str());
                    self.status = from_chars(status.as_slice());
                    self.dirty = true;
                    assert(self@.presets =~= old(self)@.presets.remove(i as int));
                    PanelWork::DeleteFile(removed.slug())
                } else {
                    PanelWork::Idle
                }
            },
            PresetAction::CaptureNow(name) => PanelWork::QueueCapture(name),
        }
    }

    /// Says how the request for a capture went.
    pub fn capture_queued(&mut self, name: &str, failure: Option<String>)
        ensures
            final(self)@ == (PanelView {
                status: queued_message(name@, optional_text(failure)),
                ..old(self)@
            }),
    {
        match failure {
            Some(e) => {
                let mut status = to_chars("Capture request failed: ");
                push_text(&mut status, e.as_str());
                self.status = from_chars(status.as_slice());
            },
            None => {
                let mut status = to_chars("Capture queued: ");
                push_text(&mut status, name);
                push_text(&mut status, " (run this hotkey from the tray to confirm).");
                self.status = from_chars(status.as_slice());
            },
        }
    }

    /// The button for a new preset.
    pub fn new_draft(&mut self)
        ensures
            final(self)@ == (PanelView {
                draft: Some((usize::MAX, crate::presets::plain_region("Untitled"@, 0))),
                ..old(self)@
            }),
    {
        self.draft = Some((usize::MAX, Preset::default()));
    }

    /// The button that drops the draft.
    pub fn cancel_draft(&mut self)
        ensures
            final(self)@ == (PanelView { draft: None, ..old(self)@ }),
    {
        self.draft = None;
    }
}

// ---------------------------------------------------------------------------
// The form
// ---------------------------------------------------------------------------

/// The heading of the form.
pub open spec fn heading(idx: usize) -> Seq<char> {
    if idx == usize::MAX {
        "New preset"@
    } else {
        "Edit preset"@
    }
}

/// The heading of the form.
pub fn form_heading(idx: usize) -> (r: &'static str)
    ensures
        r@ == heading(idx),
{
    if idx == usize::MAX {
        "New preset"
    } else {
        "Edit preset"
    }
}

/// The largest width or height that a field takes.
pub const MOST_SIDE: u32 = 32768;

/// The longest delay that a field takes, in milliseconds.
pub const MOST_DELAY: u32 = 60000;

/// A number field that holds its value between two limits.
pub fn hold(value: i32, least: u32, most: u32) -> (r: u32)
    requires
        least <= most <= i32::MAX,
    ensures
        r == crate::settings::ui::bounded(value as int, least as int, most as int),
{
    if value < least as i32 {
        least
    } else if value > most as i32 {
        most
    } else {
        value as u32
    }
}

/// The width or height that a field gives: from 1 to the largest side.
pub fn set_side(value: i32) -> (r: u32)
    ensures
        r == crate::settings::ui::bounded(value as int, 1, MOST_SIDE as int),
{
    hold(value, 1, MOST_SIDE)
}

/// The delay that a field gives: from 0 to the longest delay.
pub fn set_delay(value: i32) -> (r: u32)
    ensures
        r == crate::settings::ui::bounded(value as int, 0, MOST_DELAY as int),
{
    hold(value, 0, MOST_DELAY)
}

/// Whether a text is blank.
pub open spec fn is_blank(s: Seq<char>) -> bool {
    crate::text::trim(s, CharClass::Whitespace).len() == 0
}

/// Tells whether a text is blank.
pub fn blank(s: &str) -> (r: bool)
    ensures
        r == is_blank(s@),
{
    let chars = to_chars(s);
    let t = trim_chars(chars.as_slice(), CharClass::Whitespace);
    t.len() == 0
}

/// The hotkey field after a change: its canonical form where it is a chord.
pub open spec fn settled_hotkey(s: Seq<char>) -> Seq<char> {
    match crate::hotkeys::bindings::parsed(s) {
        Ok(c) => if is_blank(s) {
            s
        } else {
            crate::hotkeys::bindings::canonical(c)
        },
        Err(_) => s,
    }
}

/// What is wrong with a hotkey field; a blank one is in order.
pub open spec fn hotkey_error(s: Seq<char>) -> Option<ChordErrorView> {
    if is_blank(s) {
        None
    } else {
        match crate::hotkeys::bindings::parsed(s) {
            Ok(_) => None,
            Err(e) => Some(e),
        }
    }
}

/// The view of a chord error, if there is one.
pub open spec fn error_view(e: Option<ChordError>) -> Option<ChordErrorView> {
    match e {
        Some(e) => Some(e@),
        None => None,
    }
}

/// Puts the hotkey of a draft into its canonical form, or says what is wrong with
/// it.
pub fn settle_hotkey(draft: &mut Preset) -> (r: Option<ChordError>)
    ensures
        final(draft)@ == (PresetView {
            hotkey: settled_hotkey(old(draft)@.hotkey),
            ..old(draft)@
        }),
        error_view(r) == hotkey_error(old(draft)@.hotkey),
{
    if blank(draft.hotkey.as_str()) {
        return None;
    }
    match parse_chord(draft.hotkey.as_str()) {
        Ok((canon, _)) => {
            draft.hotkey = canon;
            None
        },
        Err(e) => Some(e),
    }
}

/// The warning below the hotkey field.
pub fn hotkey_warning(e: &ChordError) -> (r: String)
    ensures
        r@ == "Invalid: "@ + e@.message(),
{
    let mut out = to_chars("Invalid: ");
    let m = e.message();
    push_text(&mut out, m.as_str());
    from_chars(out.as_slice())
}

// ---------------------------------------------------------------------------
// Saving
// ---------------------------------------------------------------------------

/// Why a draft cannot be saved.
pub open spec fn refusal(p: PresetView) -> Option<Seq<char>> {
    if is_blank(p.name) {
        Some("Preset name cannot be empty."@)
    } else {
        match hotkey_error(p.hotkey) {
            Some(e) => Some("Invalid hotkey '"@ + p.hotkey + "': "@ + e.message()),
            None => None,
        }
    }
}

/// The slug whose file is to go when the draft at `idx` is saved: the old one of a
/// preset that gets another.
pub open spec fn stale_slug(presets: Seq<PresetView>, idx: usize, p: PresetView) -> Option<
    Seq<char>,
> {
    if idx < presets.len() && idx != usize::MAX && crate::presets::slug_of(
        presets[idx as int].name,
    ) != crate::presets::slug_of(p.name) {
        Some(crate::presets::slug_of(presets[idx as int].name))
    } else {
        None
    }
}

/// Checks a draft.
pub fn refuse(p: &Preset) -> (r: Option<String>)
    ensures
        optional_text(r) == refusal(p@),
{
    if blank(p.name.as_str()) {
        return Some("Preset name cannot be empty.".to_owned());
    }
    if blank(p.hotkey.as_str()) {
        return None;
    }
    match parse_chord(p.hotkey.as_str()) {
        Ok(_) => None,
        Err(e) => {
            let mut out = to_chars("Invalid hotkey '");
            push_text(&mut out, p.hotkey.as_str());
            push_text(&mut out, "': ");
            let m = e.message();
            push_text(&mut out, m.as_str());
            Some(from_chars(out.as_slice()))
        },
    }
}

impl PresetPanel {
    /// Takes a draft to be saved at a place of the list: refuses it, and keeps it in
    /// the form, or says what is to be written.
    pub fn save_preset_draft(&mut self, idx: usize, draft: Preset) -> (r: PanelWork)
        ensures
            match refusal(draft@) {
                Some(status) => {
                    &&& final(self)@ == (PanelView {
                        status,
                        draft: Some((idx, draft@)),
                        ..old(self)@
                    })
                    &&& r@ == WorkView::Idle
                },
                None => {
                    &&& final(self)@ == old(self)@
                    &&& r@ == (WorkView::WriteFile {
                        preset: draft@,
                        stale: stale_slug(old(self)@.presets, idx, draft@),
                    })
                },
            },
    {
        match refuse(&draft) {
            Some(status) => {
                self.status = status;
                self.draft = Some((idx, draft));
                PanelWork::Idle
            },
            None => {
                let mut stale: Option<String> = None;
                if idx != usize::MAX && idx < self.store.presets.len() {
                    let old_slug = self.store.presets[idx].slug();
                    let new_slug = draft.slug();
                    if !same_str(old_slug.as_str(), new_slug.as_str()) {
                        stale = Some(old_slug);
                    }
                }
                PanelWork::WriteFile { preset: draft, stale }
            },
        }
    }

    /// The button that saves the draft: whatever comes of it, the form closes.
    pub fn save_clicked(&mut self) -> (r: PanelWork)
        ensures
            final(self)@ == (PanelView {
                draft: None,
                status: match old(self)@.draft {
                    Some(d) => match refusal(d.1) {
                        Some(status) => status,
                        None => old(self)@.status,
                    },
                    None => old(self)@.status,
                },
                ..old(self)@
            }),
            r@ == match old(self)@.draft {
                Some(d) => if refusal(d.1) is Some {
                    WorkView::Idle
                } else {
                    WorkView::WriteFile {
                        preset: d.1,
                        stale: stale_slug(old(self)@.presets, d.0, d.1),
                    }
                },
                None => WorkView::Idle,
            },
    {
        match self.draft.take() {
            Some((idx, draft)) => {
                let work = self.save_preset_draft(idx, draft);
                self.draft = None;
                work
            },
            None => PanelWork::Idle,
        }
    }

    /// Says how the writing went: `failure` says why it failed, `reloaded` holds the
    /// presets that are then on disk.
    pub fn draft_written(&mut self, name: &str, failure: Option<String>, reloaded: PresetStore)
        ensures
            final(self)@ == match optional_text(failure) {
                Some(e) => PanelView { status: "Save failed: "@ + e, ..old(self)@ },
                None => PanelView {
                    presets: preset_views(reloaded.presets@),
                    status: "Saved preset "@ + debug_text(name@),
                    dirty: true,
                    ..old(self)@
                },
            },
    {
        match failure {
            Some(e) => {
                let mut status = to_chars("Save failed: ");
                push_text(&mut status, e.as_str());
                self.status = from_chars(status.as_slice());
            },
            None => {
                self.store = reloaded;
                let mut status = to_chars("Saved preset ");
                let shown = quoted(name);
                push_text(&mut status, shown.as_str());
                self.status = from_chars(status.as_slice());
                self.dirty = true;
            },
        }
    }
}

// ---------------------------------------------------------------------------
// Laws
// ---------------------------------------------------------------------------

/// A hotkey field that has been settled once does not change when it is settled
/// again, and stays as good or as bad as it was.
pub proof fn law_settling_is_idempotent(s: Seq<char>)
    ensures
        settled_hotkey(settled_hotkey(s)) == settled_hotkey(s),
        hotkey_error(s) is None <==> hotkey_error(settled_hotkey(s)) is None,
{
    match crate::hotkeys::bindings::parsed(s) {
        Ok(c) => {
            if !is_blank(s) {
                crate::hotkeys::bindings::law_parsed_key_is_valid(s);
                crate::hotkeys::bindings::law_canonical_form_reparses(c);
            }
        },
        Err(_) => {},
    }
}

/// A copy of a preset is never bound to a key: two presets do not come to share a
/// chord because one was copied. It can be saved under its new name.
pub proof fn law_duplicate_is_unbound(p: PresetView)
    ensures
        is_blank(duplicate_of(p).hotkey),
        hotkey_error(duplicate_of(p).hotkey) is None,
        duplicate_of(p).name != p.name,
{
    reveal_strlit(" copy");
    assert(duplicate_of(p).name.len() == p.name.len() + 5);
}

/// A draft that is saved under the slug that it had leaves no file to be deleted, so
/// the file that was just written is never the one that goes.
pub proof fn law_stale_file_is_another(presets: Seq<PresetView>, idx: usize, p: PresetView)
    ensures
        stale_slug(presets, idx, p) != Some(crate::presets::slug_of(p.name)),
{
}

/// A duplicate has a longer name and no hotkey, and is like its original
/// otherwise.
pub proof fn law_duplicates_are_alike(p: PresetView)
    ensures
        ({
            let d = duplicate_of(p);
            &&& d == (PresetView { name: d.name, hotkey: d.hotkey, ..p })
            &&& d.name.len() == p.name.len() + 5
            &&& d.name.take(p.name.len() as int) == p.name
            &&& d.hotkey.len() == 0
        }),
{
    reveal_strlit(" copy");
    assert(duplicate_of(p).name.take(p.name.len() as int) =~= p.name);
}

/// Editing opens a preset in the form at its own place, duplicating opens its
/// duplicate as a new one, deleting takes it out of the list and its file away;
/// none of them touches the other presets.
pub proof fn law_actions_on_presets(s: PanelView, i: usize, name: Seq<char>)
    ensures
        i < s.presets.len() ==> acted(s, ActionView::Edit(i)).draft == Some(
            (i, s.presets[i as int]),
        ),
        acted(s, ActionView::Edit(i)).presets == s.presets,
        i < s.presets.len() ==> acted(s, ActionView::Duplicate(i)).draft == Some(
            (usize::MAX, duplicate_of(s.presets[i as int])),
        ),
        acted(s, ActionView::Duplicate(i)).presets == s.presets,
        i < s.presets.len() ==> {
            let after = acted(s, ActionView::Delete(i));
            &&& after.presets.len() == s.presets.len() - 1 && after.dirty
            &&& after.presets.take(i as int) == s.presets.take(i as int)
            &&& after.presets.skip(i as int) == s.presets.skip(i as int + 1)
            &&& work_of(s, ActionView::Delete(i)) == WorkView::DeleteFile(
                crate::presets::slug_of(s.presets[i as int].name),
            )
        },
        i >= s.presets.len() ==> acted(s, ActionView::Delete(i)) == s && work_of(
            s,
            ActionView::Delete(i),
        ) is Idle,
        acted(s, ActionView::CaptureNow(name)) == s,
        work_of(s, ActionView::CaptureNow(name)) == WorkView::QueueCapture(name),
        work_of(s, ActionView::Edit(i)) is Idle && work_of(s, ActionView::Duplicate(i)) is Idle,
{
    if i < s.presets.len() {
        let after = acted(s, ActionView::Delete(i));
        assert(after.presets.take(i as int) =~= s.presets.take(i as int));
        assert(after.presets.skip(i as int) =~= s.presets.skip(i as int + 1));
    }
}

/// A preset can be stored if it has a name and its hotkey is blank or can be
/// read; the name is looked at first.
pub proof fn law_presets_need_a_name(p: PresetView)
    ensures
        refusal(p) is None <==> crate::text::trim(p.name, CharClass::Whitespace).len() > 0 && (
        crate::text::trim(p.hotkey, CharClass::Whitespace).len() == 0
            || crate::hotkeys::bindings::parsed(p.hotkey) is Ok),
        crate::text::trim(p.name, CharClass::Whitespace).len() == 0 ==> refusal(p) == Some(
            "Preset name cannot be empty."@,
        ),
{
}

/// A hotkey that can be read is put in its canonical form, any other text stays.
pub proof fn law_hotkeys_are_settled(s: Seq<char>)
    ensures
        crate::hotkeys::bindings::parsed(s) matches Ok(c) ==> settled_hotkey(s) == s
            || settled_hotkey(s) == crate::hotkeys::bindings::canonical(c),
        crate::hotkeys::bindings::parsed(s) matches Ok(c) ==> (crate::text::trim(
            s,
            CharClass::Whitespace,
        ).len() > 0 ==> settled_hotkey(s) == crate::hotkeys::bindings::canonical(c)),
        crate::hotkeys::bindings::parsed(s) is Err ==> settled_hotkey(s) == s,
{
}

/// The file of the old name is removed exactly where a stored preset got another
/// slug.
pub proof fn law_old_files_are_removed(presets: Seq<PresetView>, idx: usize, p: PresetView)
    ensures
        stale_slug(presets, idx, p) matches Some(slug) ==> idx < presets.len() && slug
            == crate::presets::slug_of(presets[idx as int].name),
        idx < presets.len() && idx != usize::MAX ==> (stale_slug(presets, idx, p) is None
            <==> crate::presets::slug_of(presets[idx as int].name) == crate::presets::slug_of(
            p.name,
        )),
        idx >= presets.len() || idx == usize::MAX ==> stale_slug(presets, idx, p) is None,
{
}

/// The line of a preset begins with its target, ends with its action, and says
/// between them how long it waits and whether the cursor is captured.
pub proof fn law_preset_lines(p: PresetView)
    ensures
        ({
            let line = entry_line(p);
            let target = p.target.text();
            let action = p.post_action.text();
            let delay = crate::text::decimal(p.delay_ms as nat);
            &&& line.len() == target.len() + 11 + delay.len() + 15 + (if p.include_cursor {
                2int
            } else {
                3
            }) + 5 + action.len()
            &&& line.take(target.len() as int) == target
            &&& line.skip(line.len() - action.len()) == action
            &&& line.subrange(target.len() as int + 11, target.len() as int + 11 + delay.len())
                == delay
        }),
{
    reveal_strlit("  \u{00b7}  delay ");
    reveal_strlit("ms  \u{00b7}  cursor: ");
    reveal_strlit("  \u{00b7}  ");
    reveal_strlit("on");
    reveal_strlit("off");
    let line = entry_line(p);
    let target = p.target.text();
    let action = p.post_action.text();
    let delay = crate::text::decimal(p.delay_ms as nat);
    assert(line.take(target.len() as int) =~= target);
    assert(line.skip(line.len() - action.len()) =~= action);
    assert(line.subrange(target.len() as int + 11, target.len() as int + 11 + delay.len())
        =~= delay);
}

/// A preset that is not in the list yet is a new one.
pub proof fn law_headings(idx: usize)
    ensures
        heading(idx)[0] == (if idx == usize::MAX {
            'N'
        } else {
            'E'
        }),
{
    reveal_strlit("New preset");
    reveal_strlit("Edit preset");
}

} // verus!
