//! Named capture presets: the record, its slug, the output file name that its
//! template gives, and the ordered collection of presets.
use vstd::prelude::*;
use crate::clock::{format_time, CivilTime};
use crate::text::{
    char_is_alnum, char_is_control, from_chars, is_text, push_text, replace_chars, same_str,
    split_chars, text_le, to_chars, to_lower_char, trim_chars, CharClass,
};

verus! {

/// What happens once a capture is done.
#[derive(Debug, Clone, Copy, PartialEq, Eq, Structural)]
pub enum PostAction {
    /// Save the PNG, also copy to clipboard. Do not open the editor.
    SaveOnly,
    /// Save the PNG and open it in the annotation editor.
    Editor,
    /// Copy to clipboard only, no disk file.
    CopyOnly,
}

/// One thing that is done with a finished capture.
#[derive(Debug, Clone, Copy, PartialEq, Eq, Structural)]
pub enum PostStep {
    /// Write the PNG.
    Save,
    /// Put the picture on the clipboard.
    Copy,
    /// Open the written PNG in the annotation editor.
    OpenEditor,
}

impl PostAction {
    /// What the action consists of, in order.
    pub open spec fn to_do(self) -> Seq<PostStep> {
        match self {
            PostAction::SaveOnly => seq![PostStep::Save, PostStep::Copy],
            PostAction::Editor => seq![PostStep::Save, PostStep::OpenEditor],
            PostAction::CopyOnly => seq![PostStep::Copy],
        }
    }

    /// What the action consists of, in order.
    pub fn steps(self) -> (r: Vec<PostStep>)
        ensures
            r@ == self.to_do(),
    {
        match self {
            PostAction::SaveOnly => vec![PostStep::Save, PostStep::Copy],
            PostAction::Editor => vec![PostStep::Save, PostStep::OpenEditor],
            PostAction::CopyOnly => vec![PostStep::Copy],
        }
    }

    /// Every action, in menu order.
    pub const ALL: [PostAction; 3] = [
        PostAction::SaveOnly,
        PostAction::Editor,
        PostAction::CopyOnly,
    ];

    pub open spec fn text(self) -> Seq<char> {
        match self {
            PostAction::SaveOnly => "Save only"@,
            PostAction::Editor => "Save + open editor"@,
            PostAction::CopyOnly => "Copy to clipboard only"@,
        }
    }

    pub fn label(self) -> (r: &'static str)
        ensures
            r@ == self.text(),
    {
        match self {
            PostAction::SaveOnly => "Save only",
            PostAction::Editor => "Save + open editor",
            PostAction::CopyOnly => "Copy to clipboard only",
        }
    }
}

impl Default for PostAction {
    fn default() -> (r: Self)
        ensures
            r == PostAction::SaveOnly,
    {
        PostAction::SaveOnly
    }
}

/// Kind of capture target. "Region" pops the interactive region overlay.
#[derive(Debug, Clone, Copy, PartialEq, Eq, Structural)]
pub enum PresetTargetKind {
    Fullscreen,
    /// Run the interactive region selector overlay.
    Region,
    /// Region overlay that resolves to a window on a click without a drag.
    Window,
    /// Run the exact-dimensions overlay with `width` x `height`.
    ExactDims,
    /// Run the object / menu picker.
    Object,
}

impl PresetTargetKind {
    /// Every kind, in menu order.
    pub const ALL: [PresetTargetKind; 5] = [
        PresetTargetKind::Fullscreen,
        PresetTargetKind::Region,
        PresetTargetKind::Window,
        PresetTargetKind::ExactDims,
        PresetTargetKind::Object,
    ];

    pub open spec fn text(self) -> Seq<char> {
        match self {
            PresetTargetKind::Fullscreen => "Fullscreen"@,
            PresetTargetKind::Region => "Region"@,
            PresetTargetKind::Window => "Region / window"@,
            PresetTargetKind::ExactDims => "Exact dimensions"@,
            PresetTargetKind::Object => "Object / menu"@,
        }
    }

    pub fn label(self) -> (r: &'static str)
        ensures
            r@ == self.text(),
    {
        match self {
            PresetTargetKind::Fullscreen => "Fullscreen",
            PresetTargetKind::Region => "Region",
            PresetTargetKind::Window => "Region / window",
            PresetTargetKind::ExactDims => "Exact dimensions",
            PresetTargetKind::Object => "Object / menu",
        }
    }
}

impl Default for PresetTargetKind {
    fn default() -> (r: Self)
        ensures
            r == PresetTargetKind::Region,
    {
        PresetTargetKind::Region
    }
}

/// A single preset record.
#[derive(Debug)]
pub struct Preset {
    /// Human-readable name.
    pub name: String,
    pub target: PresetTargetKind,
    /// Countdown delay before the capture runs. 0 = no delay.
    pub delay_ms: u32,
    /// Whether the cursor is captured as a separate layer.
    pub include_cursor: bool,
    /// Exact-dims width; ignored for the other targets.
    pub width: u32,
    /// Exact-dims height; ignored for the other targets.
    pub height: u32,
    /// Global hotkey chord (e.g. `"Ctrl+Shift+1"`). Empty = unbound.
    pub hotkey: String,
    pub post_action: PostAction,
    /// Output filename template. Supports `{timestamp}` and `{window}`.
    pub filename_template: String,
    /// Relative subfolder under the output directory. Empty = root.
    pub subfolder: String,
}

/// Whether a count is zero (a zero dimension is left out of the preset file).
pub fn is_zero(v: &u32) -> (r: bool)
    ensures
        r == (*v == 0),
{
    *v == 0
}

/// The fields of a preset as plain values.
pub struct PresetView {
    pub name: Seq<char>,
    pub target: PresetTargetKind,
    pub delay_ms: u32,
    pub include_cursor: bool,
    pub width: u32,
    pub height: u32,
    pub hotkey: Seq<char>,
    pub post_action: PostAction,
    pub filename_template: Seq<char>,
    pub subfolder: Seq<char>,
}

impl View for Preset {
    type V = PresetView;

    open spec fn view(&self) -> PresetView {
        PresetView {
            name: self.name@,
            target: self.target,
            delay_ms: self.delay_ms,
            include_cursor: self.include_cursor,
            width: self.width,
            height: self.height,
            hotkey: self.hotkey@,
            post_action: self.post_action,
            filename_template: self.filename_template@,
            subfolder: self.subfolder@,
        }
    }
}

impl Clone for Preset {
    fn clone(&self) -> (r: Self)
        ensures
            r == *self,
    {
        Preset {
            name: self.name.clone(),
            target: self.target,
            delay_ms: self.delay_ms,
            include_cursor: self.include_cursor,
            width: self.width,
            height: self.height,
            hotkey: self.hotkey.clone(),
            post_action: self.post_action,
            filename_template: self.filename_template.clone(),
            subfolder: self.subfolder.clone(),
        }
    }
}

/// An unbound region preset without delay, under the given name.
pub open spec fn plain_region(name: Seq<char>, delay_ms: u32) -> PresetView {
    PresetView {
        name,
        target: PresetTargetKind::Region,
        delay_ms,
        include_cursor: false,
        width: 0,
        height: 0,
        hotkey: Seq::empty(),
        post_action: PostAction::SaveOnly,
        filename_template: "GrabIt-{timestamp}"@,
        subfolder: Seq::empty(),
    }
}

impl Default for Preset {
    fn default() -> (r: Self)
        ensures
            r@ == plain_region("Untitled"@, 0),
    {
        Preset {
            name: "Untitled".to_owned(),
            target: PresetTargetKind::Region,
            delay_ms: 0,
            include_cursor: false,
            width: 0,
            height: 0,
            hotkey: String::new(),
            post_action: PostAction::SaveOnly,
            filename_template: "GrabIt-{timestamp}".to_owned(),
            subfolder: String::new(),
        }
    }
}

// ---------------------------------------------------------------------------
// Files
// ---------------------------------------------------------------------------

impl PostAction {
    /// The word that stands for it in a file.
    pub open spec fn word(self) -> Seq<char> {
        match self {
            PostAction::CopyOnly => "copy-only"@,
            PostAction::SaveOnly => "save-only"@,
            PostAction::Editor => "editor"@,
        }
    }

    /// The word that stands for it in a file.
    pub fn key(self) -> (r: &'static str)
        ensures
            r@ == self.word(),
    {
        match self {
            PostAction::CopyOnly => "copy-only",
            PostAction::SaveOnly => "save-only",
            PostAction::Editor => "editor",
        }
    }

    /// What a word in a file stands for.
    pub fn from_key(s: &str) -> (r: Option<PostAction>)
        ensures
            match r {
                Some(a) => s@ == a.word(),
                None => forall|a: PostAction| s@ != #[trigger] a.word(),
            },
    {
        if same_str(s, "copy-only") {
            Some(PostAction::CopyOnly)
        } else if same_str(s, "save-only") {
            Some(PostAction::SaveOnly)
        } else if same_str(s, "editor") {
            Some(PostAction::Editor)
        } else {
            None
        }
    }
}

impl PresetTargetKind {
    /// The word that stands for it in a file.
    pub open spec fn word(self) -> Seq<char> {
        match self {
            PresetTargetKind::Fullscreen => "fullscreen"@,
            PresetTargetKind::Region => "region"@,
            PresetTargetKind::Window => "window"@,
            PresetTargetKind::Object => "object"@,
            PresetTargetKind::ExactDims => "exact-dims"@,
        }
    }

    /// The word that stands for it in a file.
    pub fn key(self) -> (r: &'static str)
        ensures
            r@ == self.word(),
    {
        match self {
            PresetTargetKind::Fullscreen => "fullscreen",
            PresetTargetKind::Region => "region",
            PresetTargetKind::Window => "window",
            PresetTargetKind::Object => "object",
            PresetTargetKind::ExactDims => "exact-dims",
        }
    }

    /// What a word in a file stands for.
    pub fn from_key(s: &str) -> (r: Option<PresetTargetKind>)
        ensures
            match r {
                Some(k) => s@ == k.word(),
                None => forall|k: PresetTargetKind| s@ != #[trigger] k.word(),
            },
    {
        if same_str(s, "fullscreen") {
            Some(PresetTargetKind::Fullscreen)
        } else if same_str(s, "region") {
            Some(PresetTargetKind::Region)
        } else if same_str(s, "window") {
            Some(PresetTargetKind::Window)
        } else if same_str(s, "object") {
            Some(PresetTargetKind::Object)
        } else if same_str(s, "exact-dims") {
            Some(PresetTargetKind::ExactDims)
        } else {
            None
        }
    }
}

/// The words in a file tell their meanings apart.
pub proof fn law_words_are_distinct(
    a: PostAction,
    b: PostAction,
    k: PresetTargetKind,
    l: PresetTargetKind,
)
    ensures
        a.word() == b.word() ==> a == b,
        k.word() == l.word() ==> k == l,
{
    reveal_strlit("copy-only");
    reveal_strlit("save-only");
    reveal_strlit("editor");
    reveal_strlit("fullscreen");
    reveal_strlit("region");
    reveal_strlit("window");
    reveal_strlit("object");
    reveal_strlit("exact-dims");
    assert("copy-only"@[0] == 'c' && "save-only"@[0] == 's' && "editor"@[0] == 'e');
    assert("fullscreen"@[0] == 'f' && "region"@[0] == 'r' && "window"@[0] == 'w');
    assert("object"@[0] == 'o' && "exact-dims"@[0] == 'e');
}

/// What a preset file says. A key that it does not have counts as the default.
#[derive(Debug)]
pub struct PresetRecord {
    pub name: Option<String>,
    pub target: Option<PresetTargetKind>,
    pub delay_ms: Option<u32>,
    pub include_cursor: Option<bool>,
    pub width: Option<u32>,
    pub height: Option<u32>,
    pub hotkey: Option<String>,
    pub post_action: Option<PostAction>,
    pub filename_template: Option<String>,
    pub subfolder: Option<String>,
}

/// What a preset file says, as plain values.
#[verifier::ext_equal]
pub struct PresetRecordView {
    pub name: Option<Seq<char>>,
    pub target: Option<PresetTargetKind>,
    pub delay_ms: Option<u32>,
    pub include_cursor: Option<bool>,
    pub width: Option<u32>,
    pub height: Option<u32>,
    pub hotkey: Option<Seq<char>>,
    pub post_action: Option<PostAction>,
    pub filename_template: Option<Seq<char>>,
    pub subfolder: Option<Seq<char>>,
}

impl View for PresetRecord {
    type V = PresetRecordView;

    open spec fn view(&self) -> PresetRecordView {
        PresetRecordView {
            name: crate::text::optional_text(self.name),
            target: self.target,
            delay_ms: self.delay_ms,
            include_cursor: self.include_cursor,
            width: self.width,
            height: self.height,
            hotkey: crate::text::optional_text(self.hotkey),
            post_action: self.post_action,
            filename_template: crate::text::optional_text(self.filename_template),
            subfolder: crate::text::optional_text(self.subfolder),
        }
    }
}

/// The value in the file, or the default.
pub open spec fn stored<T>(v: Option<T>, otherwise: T) -> T {
    match v {
        Some(v) => v,
        None => otherwise,
    }
}

/// The preset that a file stands for.
pub open spec fn preset_restored(r: PresetRecordView) -> PresetView {
    let d = plain_region("Untitled"@, 0);
    PresetView {
        name: stored(r.name, d.name),
        target: stored(r.target, d.target),
        delay_ms: stored(r.delay_ms, d.delay_ms),
        include_cursor: stored(r.include_cursor, d.include_cursor),
        width: stored(r.width, d.width),
        height: stored(r.height, d.height),
        hotkey: stored(r.hotkey, d.hotkey),
        post_action: stored(r.post_action, d.post_action),
        filename_template: stored(r.filename_template, d.filename_template),
        subfolder: stored(r.subfolder, d.subfolder),
    }
}

/// The file of a preset. A size of 0, an empty hotkey and an empty subfolder are left
/// out.
pub open spec fn preset_recorded(p: PresetView) -> PresetRecordView {
    PresetRecordView {
        name: Some(p.name),
        target: Some(p.target),
        delay_ms: Some(p.delay_ms),
        include_cursor: Some(p.include_cursor),
        width: if p.width == 0 {
            None
        } else {
            Some(p.width)
        },
        height: if p.height == 0 {
            None
        } else {
            Some(p.height)
        },
        hotkey: if p.hotkey.len() == 0 {
            None
        } else {
            Some(p.hotkey)
        },
        post_action: Some(p.post_action),
        filename_template: Some(p.filename_template),
        subfolder: if p.subfolder.len() == 0 {
            None
        } else {
            Some(p.subfolder)
        },
    }
}

fn unless_zero(v: u32) -> (r: Option<u32>)
    ensures
        r == if v == 0 {
            None
        } else {
            Some(v)
        },
{
    if is_zero(&v) {
        None
    } else {
        Some(v)
    }
}

fn unless_empty(s: &String) -> (r: Option<String>)
    ensures
        crate::text::optional_text(r) == if s@.len() == 0 {
            None
        } else {
            Some(s@)
        },
{
    if same_str(s.as_str(), "") {
        proof {
            reveal_strlit("");
        }
        None
    } else {
        proof {
            reveal_strlit("");
            if s@.len() == 0 {
                assert(s@ =~= ""@);
            }
        }
        Some(s.clone())
    }
}

impl Preset {
    /// The file of this preset.
    pub fn record(&self) -> (r: PresetRecord)
        ensures
            r@ == preset_recorded(self@),
    {
        PresetRecord {
            name: Some(self.name.clone()),
            target: Some(self.target),
            delay_ms: Some(self.delay_ms),
            include_cursor: Some(self.include_cursor),
            width: unless_zero(self.width),
            height: unless_zero(self.height),
            hotkey: unless_empty(&self.hotkey),
            post_action: Some(self.post_action),
            filename_template: Some(self.filename_template.clone()),
            subfolder: unless_empty(&self.subfolder),
        }
    }

    /// Reads a preset file.
    pub fn restore(r: PresetRecord) -> (p: Preset)
        ensures
            p@ == preset_restored(r@),
    {
        let mut p = Preset::default();
        if let Some(v) = r.name {
            p.name = v;
        }
        if let Some(v) = r.target {
            p.target = v;
        }
        if let Some(v) = r.delay_ms {
            p.delay_ms = v;
        }
        if let Some(v) = r.include_cursor {
            p.include_cursor = v;
        }
        if let Some(v) = r.width {
            p.width = v;
        }
        if let Some(v) = r.height {
            p.height = v;
        }
        if let Some(v) = r.hotkey {
            p.hotkey = v;
        }
        if let Some(v) = r.post_action {
            p.post_action = v;
        }
        if let Some(v) = r.filename_template {
            p.filename_template = v;
        }
        if let Some(v) = r.subfolder {
            p.subfolder = v;
        }
        p
    }
}

/// A preset that is written and read again is the same.
pub proof fn law_preset_files_round_trip(p: PresetView)
    ensures
        preset_restored(preset_recorded(p)) == p,
{
    assert(p.hotkey.len() == 0 ==> p.hotkey =~= Seq::<char>::empty());
    assert(p.subfolder.len() == 0 ==> p.subfolder =~= Seq::<char>::empty());
}

// ---------------------------------------------------------------------------
// Slug
// ---------------------------------------------------------------------------

/// Characters that become a dash in a slug.
pub open spec fn is_slug_gap(c: char) -> bool {
    c == ' ' || c == '-' || c == '_'
}

/// The letters and digits of `s` in lower case, with one dash for each run of
/// gaps between them; every other character is dropped.
pub open spec fn slug_body(s: Seq<char>) -> Seq<char>
    decreases s.len(),
{
    if s.len() == 0 {
        Seq::empty()
    } else {
        let head = slug_body(s.drop_last());
        let c = s.last();
        if crate::text::is_ascii_alnum(c) {
            head.push(crate::text::lower_char(c))
        } else if is_slug_gap(c) && !(head.len() > 0 && head.last() == '-') {
            head.push('-')
        } else {
            head
        }
    }
}

/// The file stem of a preset called `name`.
pub open spec fn slug_of(name: Seq<char>) -> Seq<char> {
    let trimmed = crate::text::trim(slug_body(name), CharClass::Dash);
    if trimmed.len() == 0 {
        "preset"@
    } else {
        trimmed
    }
}

// ---------------------------------------------------------------------------
// Path components and templates
// ---------------------------------------------------------------------------

/// Characters that cannot stand in a Windows path component.
pub open spec fn is_illegal(c: char) -> bool {
    ||| c == '<' || c == '>' || c == ':' || c == '"' || c == '/'
    ||| c == '\\' || c == '|' || c == '?' || c == '*'
    ||| crate::text::is_control(c)
}

fn char_is_illegal(c: char) -> (r: bool)
    ensures
        r == is_illegal(c),
{
    c == '<' || c == '>' || c == ':' || c == '"' || c == '/' || c == '\\' || c == '|' || c == '?'
        || c == '*' || char_is_control(c)
}

/// What a character becomes in a path component.
pub open spec fn made_legal(c: char) -> char {
    if is_illegal(c) {
        '_'
    } else {
        c
    }
}

/// `s` with an underscore for each illegal character, and each run of underscores
/// collapsed into one.
pub open spec fn cleaned(s: Seq<char>) -> Seq<char>
    decreases s.len(),
{
    if s.len() == 0 {
        Seq::empty()
    } else {
        let head = cleaned(s.drop_last());
        let c = made_legal(s.last());
        if c == '_' && head.len() > 0 && head.last() == '_' {
            head
        } else {
            head.push(c)
        }
    }
}

/// No two underscores stand next to each other.
pub open spec fn has_single_underscores(s: Seq<char>) -> bool {
    forall|k: int| 0 <= k < s.len() - 1 ==> !(#[trigger] s[k] == '_' && s[k + 1] == '_')
}

/// The path component that `s` becomes.
pub open spec fn component(s: Seq<char>) -> Seq<char> {
    let trimmed = crate::text::trim(cleaned(s), CharClass::DotOrWhitespace);
    if trimmed.len() == 0 {
        "capture"@
    } else {
        trimmed
    }
}

/// `sanitize_path_component` on characters.
fn component_chars(s: &[char]) -> (r: Vec<char>)
    ensures
        r@ == component(s@),
{
    let mut out: Vec<char> = Vec::new();
    let mut i: usize = 0;
    while i < s.len()
        invariant
            i <= s@.len(),
            out@ == cleaned(s@.take(i as int)),
        decreases s@.len() - i,
    {
        let c = if char_is_illegal(s[i]) {
            '_'
        } else {
            s[i]
        };
        assert(s@.take(i + 1).drop_last() =~= s@.take(i as int));
        if !(c == '_' && out.len() > 0 && out[out.len() - 1] == '_') {
            out.push(c);
        }
        i += 1;
    }
    assert(s@.take(i as int) =~= s@);
    let trimmed = trim_chars(out.as_slice(), CharClass::DotOrWhitespace);
    if trimmed.len() == 0 {
        to_chars("capture")
    } else {
        trimmed
    }
}

/// Replaces the characters that are illegal in a Windows path component by
/// underscores, collapses consecutive underscores, and trims dots and white space;
/// never empty.
pub fn sanitize_path_component(s: &str) -> (r: String)
    ensures
        r@ == component(s@),
        has_single_underscores(r@),
{
    let v = to_chars(s);
    let out = component_chars(v.as_slice());
    proof {
        law_component_safe(s@);
    }
    from_chars(out.as_slice())
}

/// A template with its two tokens replaced, the timestamp first.
pub open spec fn rendered(template: Seq<char>, timestamp: Seq<char>, window: Seq<char>) -> Seq<
    char,
> {
    crate::text::replaced(
        crate::text::replaced(template, "{timestamp}"@, timestamp),
        "{window}"@,
        window,
    )
}

fn rendered_chars(template: &str, timestamp: &str, window: &str) -> (r: Vec<char>)
    ensures
        r@ == rendered(template@, timestamp@, window@),
{
    let t = to_chars(template);
    let stamp_token = to_chars("{timestamp}");
    let window_token = to_chars("{window}");
    proof {
        reveal_strlit("{timestamp}");
        reveal_strlit("{window}");
    }
    let stamp = to_chars(timestamp);
    let title = to_chars(window);
    let first = replace_chars(t.as_slice(), stamp_token.as_slice(), stamp.as_slice());
    replace_chars(first.as_slice(), window_token.as_slice(), title.as_slice())
}

/// Fills the `{timestamp}` and `{window}` tokens of a template.
pub fn render_template(template: &str, timestamp: &str, window: &str) -> (r: String)
    ensures
        r@ == rendered(template@, timestamp@, window@),
{
    let out = rendered_chars(template, timestamp, window);
    from_chars(out.as_slice())
}

/// Where a capture is written, relative to the output directory: the folders
/// to descend into, and the file name.
#[derive(Debug)]
pub struct OutputPath {
    pub folders: Vec<String>,
    pub file_name: String,
}

/// Whether a piece of a subfolder setting is skipped.
pub open spec fn is_skipped_folder(part: Seq<char>) -> bool {
    part.len() == 0 || part == "."@ || part == ".."@
}

/// The path components of the first `n` pieces.
pub open spec fn kept_folders(parts: Seq<Seq<char>>) -> Seq<Seq<char>>
    decreases parts.len(),
{
    if parts.len() == 0 {
        Seq::empty()
    } else {
        let head = kept_folders(parts.drop_last());
        if is_skipped_folder(parts.last()) {
            head
        } else {
            head.push(component(parts.last()))
        }
    }
}

/// The folders that a subfolder setting names, below the output directory.
pub open spec fn folders_of(subfolder: Seq<char>) -> Seq<Seq<char>> {
    if crate::text::trim(subfolder, CharClass::Whitespace).len() == 0 {
        Seq::empty()
    } else {
        kept_folders(crate::text::split(subfolder, CharClass::Slash))
    }
}

/// How a window title reads in a file name.
pub open spec fn title_of(window_title: Option<Seq<char>>) -> Seq<char> {
    match window_title {
        Some(t) => if t.len() == 0 {
            "unknown"@
        } else {
            t
        },
        None => "unknown"@,
    }
}

/// The file name that a template gives.
pub open spec fn file_name_of(
    template: Seq<char>,
    timestamp: Seq<char>,
    window: Seq<char>,
) -> Seq<char> {
    component(rendered(template, timestamp, window)) + ".png"@
}

fn resolve_folders(subfolder: &str) -> (r: Vec<String>)
    ensures
        crate::text::strings(r@) == folders_of(subfolder@),
{
    let mut folders: Vec<String> = Vec::new();
    let sub = to_chars(subfolder);
    let bare = trim_chars(sub.as_slice(), CharClass::Whitespace);
    assert(crate::text::strings(folders@) =~= Seq::empty());
    if bare.len() == 0 {
        return folders;
    }
    let parts = split_chars(sub.as_slice(), CharClass::Slash);
    let ghost all = crate::text::texts(parts@);
    let mut i: usize = 0;
    while i < parts.len()
        invariant
            i <= parts@.len(),
            all == crate::text::texts(parts@),
            crate::text::strings(folders@) == kept_folders(all.take(i as int)),
        decreases parts@.len() - i,
    {
        assert(all.take(i + 1).drop_last() =~= all.take(i as int));
        assert(all.take(i + 1).last() == parts@[i as int]@);
        let part = parts[i].as_slice();
        if !(part.len() == 0 || is_text(part, ".") || is_text(part, "..")) {
            let piece = component_chars(part);
            let name = from_chars(piece.as_slice());
            let ghost prev = folders@;
            folders.push(name);
            assert(crate::text::strings(folders@) =~= crate::text::strings(prev).push(name@));
        }
        i += 1;
    }
    assert(all.take(i as int) =~= all);
    folders
}

impl Preset {
    /// The preset that is seeded on first run.
    pub fn region_3s_default() -> (r: Self)
        ensures
            r@ == plain_region("Region + 3s delay"@, 3_000),
    {
        Preset {
            name: "Region + 3s delay".to_owned(),
            target: PresetTargetKind::Region,
            delay_ms: 3_000,
            include_cursor: false,
            width: 0,
            height: 0,
            hotkey: String::new(),
            post_action: PostAction::SaveOnly,
            filename_template: "GrabIt-{timestamp}".to_owned(),
            subfolder: String::new(),
        }
    }

    /// Slug used as the file stem. Strips characters that are awkward in file
    /// names; never empty (falls back to `"preset"`).
    pub fn slug(&self) -> (r: String)
        ensures
            r@ == slug_of(self@.name),
    {
        let name = to_chars(self.name.as_str());
        let mut out: Vec<char> = Vec::new();
        let mut i: usize = 0;
        while i < name.len()
            invariant
                i <= name@.len(),
                out@ == slug_body(name@.take(i as int)),
            decreases name@.len() - i,
        {
            let c = name[i];
            assert(name@.take(i + 1).drop_last() =~= name@.take(i as int));
            if char_is_alnum(c) {
                out.push(to_lower_char(c));
            } else if (c == ' ' || c == '-' || c == '_') && !(out.len() > 0 && out[out.len() - 1]
                == '-') {
                out.push('-');
            }
            i += 1;
        }
        assert(name@.take(i as int) =~= name@);
        let trimmed = trim_chars(out.as_slice(), CharClass::Dash);
        if trimmed.len() == 0 {
            "preset".to_owned()
        } else {
            from_chars(trimmed.as_slice())
        }
    }

    /// Resolves the filename template and the subfolder to a path below the
    /// output directory. A window title that is missing or empty reads `unknown`.
    pub fn resolve_png_path(&self, window_title: Option<&str>, now: &CivilTime) -> (r: OutputPath)
        requires
            now.wf(),
        ensures
            crate::text::strings(r.folders@) == folders_of(self@.subfolder),
            r.file_name@ == file_name_of(
                self@.filename_template,
                crate::clock::stamp_text(*now),
                title_of(crate::text::optional_str(window_title)),
            ),
    {
        let folders = resolve_folders(self.subfolder.as_str());
        let title: &str = match window_title {
            Some(t) => if same_str(t, "") {
                "unknown"
            } else {
                t
            },
            None => "unknown",
        };
        proof {
            reveal_strlit("");
            assert(window_title matches Some(t) ==> (t@.len() == 0 ==> t@ =~= ""@));
        }
        let stamp = format_time(now, "%Y%m%d-%H%M%S");
        let stem = rendered_chars(self.filename_template.as_str(), stamp.as_str(), title);
        let mut name = component_chars(stem.as_slice());
        push_text(&mut name, ".png");
        OutputPath { folders, file_name: from_chars(name.as_slice()) }
    }
}

// ---------------------------------------------------------------------------
// The collection
// ---------------------------------------------------------------------------

/// The Unicode lower case of a text.
pub uninterp spec fn unicode_lower(s: Seq<char>) -> Seq<char>;

/// `str::to_lowercase`: the result depends on the characters of the text only.
pub assume_specification[ str::to_lowercase ](s: &str) -> (r: String)
    ensures
        r@ == unicode_lower(s@),
;

/// The key by which presets are ordered.
pub open spec fn sort_key(p: Preset) -> Seq<char> {
    unicode_lower(p@.name)
}

/// `s` with `p` put behind every preset whose key is not greater, when `s` is
/// ordered.
pub open spec fn inserted(s: Seq<Preset>, p: Preset) -> Seq<Preset>
    decreases s.len(),
{
    if s.len() == 0 || crate::text::lex_le(sort_key(s.last()), sort_key(p)) {
        s.push(p)
    } else {
        inserted(s.drop_last(), p).push(s.last())
    }
}

/// `s` in the order of the lower-case names; presets with equal keys keep
/// their order.
pub open spec fn ordered(s: Seq<Preset>) -> Seq<Preset>
    decreases s.len(),
{
    if s.len() == 0 {
        Seq::empty()
    } else {
        inserted(ordered(s.drop_last()), s.last())
    }
}

/// The presets among the outcomes of reading the preset files; a file that
/// could not be read or parsed gives none.
pub open spec fn readable(s: Seq<Option<Preset>>) -> Seq<Preset>
    decreases s.len(),
{
    if s.len() == 0 {
        Seq::empty()
    } else {
        let head = readable(s.drop_last());
        match s.last() {
            Some(p) => head.push(p),
            None => head,
        }
    }
}

/// The chord and the name of each preset that declares a chord.
pub open spec fn bound_pairs(s: Seq<Preset>) -> Seq<(Seq<char>, Seq<char>)>
    decreases s.len(),
{
    if s.len() == 0 {
        Seq::empty()
    } else {
        let head = bound_pairs(s.drop_last());
        if crate::text::trim(s.last()@.hotkey, CharClass::Whitespace).len() == 0 {
            head
        } else {
            head.push((s.last()@.hotkey, s.last()@.name))
        }
    }
}

/// The views of a list of pairs of strings.
pub open spec fn pair_texts(v: Seq<(String, String)>) -> Seq<(Seq<char>, Seq<char>)> {
    v.map_values(|t: (String, String)| (t.0@, t.1@))
}

proof fn lemma_inserted_at(s: Seq<Preset>, p: Preset, pos: int)
    requires
        0 <= pos <= s.len(),
        pos > 0 ==> crate::text::lex_le(sort_key(s[pos - 1]), sort_key(p)),
        forall|k: int|
            pos <= k < s.len() ==> !crate::text::lex_le(sort_key(#[trigger] s[k]), sort_key(p)),
    ensures
        inserted(s, p) == s.insert(pos, p),
    decreases s.len(),
{
    if pos == s.len() {
        assert(s.insert(pos, p) =~= s.push(p));
    } else {
        assert(!crate::text::lex_le(sort_key(s.last()), sort_key(p)));
        let front = s.drop_last();
        assert forall|k: int| pos <= k < front.len() implies !crate::text::lex_le(
            sort_key(#[trigger] front[k]),
            sort_key(p),
        ) by {
            assert(front[k] == s[k]);
        }
        lemma_inserted_at(front, p, pos);
        assert(front.insert(pos, p).push(s.last()) =~= s.insert(pos, p));
    }
}

/// In-memory preset collection.
#[derive(Debug)]
pub struct PresetStore {
    pub presets: Vec<Preset>,
}

impl Default for PresetStore {
    fn default() -> (r: Self)
        ensures
            r.presets@ == Seq::<Preset>::empty(),
    {
        PresetStore { presets: Vec::new() }
    }
}

/// Whether a file with this extension is a preset file.
pub fn is_preset_file(extension: Option<&str>) -> (r: bool)
    ensures
        r == (extension is Some && extension->0@ == "toml"@),
{
    match extension {
        Some(e) => same_str(e, "toml"),
        None => false,
    }
}

impl PresetStore {
    /// Collects what reading the preset files gave, in the order of the
    /// lower-case names. Files that could not be read are left out.
    pub fn load(outcomes: Vec<Option<Preset>>) -> (r: Self)
        ensures
            r.presets@ == ordered(readable(outcomes@)),
    {
        let mut presets: Vec<Preset> = Vec::new();
        let mut keys: Vec<Vec<char>> = Vec::new();
        let mut i: usize = 0;
        while i < outcomes.len()
            invariant
                i <= outcomes@.len(),
                presets@ == ordered(readable(outcomes@.take(i as int))),
                keys@.len() == presets@.len(),
                forall|k: int|
                    0 <= k < keys@.len() ==> #[trigger] keys@[k]@ == sort_key(presets@[k]),
            decreases outcomes@.len() - i,
        {
            assert(outcomes@.take(i + 1).drop_last() =~= outcomes@.take(i as int));
            match &outcomes[i] {
                Some(p) => {
                    let key = to_chars(p.name.as_str().to_lowercase().as_str());
                    let mut pos: usize = presets.len();
                    while pos > 0 && !text_le(keys[pos - 1].as_slice(), key.as_slice())
                        invariant
                            pos <= presets@.len(),
                            keys@.len() == presets@.len(),
                            key@ == sort_key(*p),
                            forall|k: int|
                                0 <= k < keys@.len() ==> #[trigger] keys@[k]@ == sort_key(
                                    presets@[k],
                                ),
                            forall|k: int|
                                pos <= k < presets@.len() ==> !crate::text::lex_le(
                                    sort_key(#[trigger] presets@[k]),
                                    sort_key(*p),
                                ),
                        decreases pos,
                    {
                        pos -= 1;
                        assert(keys@[pos as int]@ == sort_key(presets@[pos as int]));
                    }
                    proof {
                        if pos > 0 {
                            assert(keys@[pos - 1]@ == sort_key(presets@[pos - 1]));
                        }
                        lemma_inserted_at(presets@, *p, pos as int);
                        let more = readable(outcomes@.take(i as int)).push(*p);
                        assert(more.drop_last() =~= readable(outcomes@.take(i as int)));
                    }
                    presets.insert(pos, p.clone());
                    keys.insert(pos, key);
                },
                None => {},
            }
            i += 1;
        }
        assert(outcomes@.take(i as int) =~= outcomes@);
        PresetStore { presets }
    }

    /// The preset that has to be written to disk before an empty collection is used.
    pub fn seed(&self) -> (r: Option<Preset>)
        ensures
            match r {
                Some(p) => self.presets@.len() == 0 && p@ == plain_region(
                    "Region + 3s delay"@,
                    3_000,
                ),
                None => self.presets@.len() > 0,
            },
    {
        if self.presets.len() > 0 {
            None
        } else {
            Some(Preset::region_3s_default())
        }
    }

    /// Seeds the default preset into an empty collection; `written` says whether it
    /// could be written to disk. The flag says whether a default was written. The
    /// preset is there for this session either way.
    pub fn load_or_seed_default(store: PresetStore, written: bool) -> (r: (Self, bool))
        ensures
            r.1 == (store.presets@.len() == 0 && written),
            store.presets@.len() > 0 ==> r.0 == store,
            store.presets@.len() == 0 ==> r.0.presets@.len() == 1 && r.0.presets@[0]@
                == plain_region("Region + 3s delay"@, 3_000),
    {
        match store.seed() {
            None => (store, false),
            Some(default) => {
                let mut presets: Vec<Preset> = Vec::new();
                presets.push(default);
                (PresetStore { presets }, written)
            },
        }
    }

    /// The first preset with this display name. Case-sensitive.
    pub fn find(&self, name: &str) -> (r: Option<&Preset>)
        ensures
            match r {
                Some(p) => exists|i: int|
                    0 <= i < self.presets@.len() && *p == self.presets@[i]
                        && self.presets@[i]@.name == name@ && forall|k: int|
                        0 <= k < i ==> (#[trigger] self.presets@[k])@.name != name@,
                None => forall|k: int|
                    0 <= k < self.presets@.len() ==> (#[trigger] self.presets@[k])@.name != name@,
            },
    {
        let mut i: usize = 0;
        while i < self.presets.len()
            invariant
                i <= self.presets@.len(),
                forall|k: int| 0 <= k < i ==> (#[trigger] self.presets@[k])@.name != name@,
            decreases self.presets@.len() - i,
        {
            if same_str(self.presets[i].name.as_str(), name) {
                return Some(&self.presets[i]);
            }
            i += 1;
        }
        None
    }

    /// Every preset that declares a non-blank chord, as (chord, name).
    pub fn bound_hotkeys(&self) -> (r: Vec<(String, String)>)
        ensures
            pair_texts(r@) == bound_pairs(self.presets@),
    {
        let mut out: Vec<(String, String)> = Vec::new();
        let mut i: usize = 0;
        assert(pair_texts(out@) =~= Seq::empty());
        while i < self.presets.len()
            invariant
                i <= self.presets@.len(),
                pair_texts(out@) == bound_pairs(self.presets@.take(i as int)),
            decreases self.presets@.len() - i,
        {
            assert(self.presets@.take(i + 1).drop_last() =~= self.presets@.take(i as int));
            let p = &self.presets[i];
            let chord = to_chars(p.hotkey.as_str());
            let bare = trim_chars(chord.as_slice(), CharClass::Whitespace);
            if bare.len() > 0 {
                let ghost prev = out@;
                out.push((p.hotkey.clone(), p.name.clone()));
                assert(pair_texts(out@) =~= pair_texts(prev).push((p@.hotkey, p@.name)));
            }
            i += 1;
        }
        assert(self.presets@.take(i as int) =~= self.presets@);
        out
    }
}

// ---------------------------------------------------------------------------
// Laws
// ---------------------------------------------------------------------------

/// Characters that a slug is made of.
pub open spec fn is_slug_char(c: char) -> bool {
    c == '-' || crate::text::is_ascii_lower(c) || crate::text::is_ascii_digit(c)
}

/// Lower-case letters, digits and single dashes.
pub open spec fn is_slug_text(s: Seq<char>) -> bool {
    &&& forall|k: int| 0 <= k < s.len() ==> is_slug_char(#[trigger] s[k])
    &&& forall|k: int|
        0 <= k < s.len() - 1 ==> !(#[trigger] s[k] == '-' && s[k + 1] == '-')
}

proof fn lemma_slug_body_shape(s: Seq<char>)
    ensures
        is_slug_text(slug_body(s)),
    decreases s.len(),
{
    if s.len() > 0 {
        lemma_slug_body_shape(s.drop_last());
        let head = slug_body(s.drop_last());
        let all = slug_body(s);
        assert forall|k: int| 0 <= k < all.len() implies is_slug_char(#[trigger] all[k]) by {
            if k < head.len() {
                assert(all[k] == head[k]);
            }
        }
        assert forall|k: int| 0 <= k < all.len() - 1 implies !(#[trigger] all[k] == '-' && all[k + 1]
            == '-') by {
            assert(all[k] == head[k]);
            if k + 1 < head.len() {
                assert(all[k + 1] == head[k + 1]);
            }
        }
    }
}

proof fn lemma_slug_body_unchanged(s: Seq<char>)
    requires
        is_slug_text(s),
    ensures
        slug_body(s) == s,
    decreases s.len(),
{
    if s.len() > 0 {
        let front = s.drop_last();
        assert forall|k: int| 0 <= k < front.len() implies is_slug_char(#[trigger] front[k]) by {
            assert(front[k] == s[k]);
        }
        assert forall|k: int| 0 <= k < front.len() - 1 implies !(#[trigger] front[k] == '-'
            && front[k + 1] == '-') by {
            assert(front[k] == s[k]);
        }
        lemma_slug_body_unchanged(front);
        assert(is_slug_char(s[s.len() - 1]));
        if front.len() > 0 {
            assert(front.last() == s[s.len() - 2]);
        }
        assert(slug_body(s) =~= s);
    } else {
        assert(slug_body(s) =~= s);
    }
}

/// A slug is never empty, is made of lower-case letters, digits and single
/// dashes, and neither starts nor ends with a dash.
pub proof fn law_slug_shape(name: Seq<char>)
    ensures
        slug_of(name).len() > 0,
        is_slug_text(slug_of(name)),
        slug_of(name)[0] != '-',
        slug_of(name).last() != '-',
{
    reveal_strlit("preset");
    lemma_slug_body_shape(name);
    let body = slug_body(name);
    let r = crate::text::lemma_trim(body, CharClass::Dash);
    let t = body.subrange(r.0, r.1);
    assert forall|k: int| 0 <= k < t.len() implies is_slug_char(#[trigger] t[k]) by {
        assert(t[k] == body[r.0 + k]);
    }
    assert forall|k: int| 0 <= k < t.len() - 1 implies !(#[trigger] t[k] == '-' && t[k + 1]
        == '-') by {
        assert(t[k] == body[r.0 + k]);
    }
}

/// The slug of a slug is that slug.
pub proof fn law_slug_idempotent(name: Seq<char>)
    ensures
        slug_of(slug_of(name)) == slug_of(name),
{
    law_slug_shape(name);
    lemma_slug_body_unchanged(slug_of(name));
    crate::text::lemma_trim_unchanged(slug_of(name), CharClass::Dash);
}

/// A path component that is safe to append to a directory: not empty, without
/// separators, drive colons, control codes or double underscores, and neither `.` nor
/// `..`.
pub open spec fn is_safe_component(s: Seq<char>) -> bool {
    &&& s.len() > 0
    &&& forall|k: int| 0 <= k < s.len() ==> !is_illegal(#[trigger] s[k])
    &&& !CharClass::DotOrWhitespace.has(s[0])
    &&& !CharClass::DotOrWhitespace.has(s.last())
    &&& has_single_underscores(s)
}

proof fn lemma_cleaned(s: Seq<char>)
    ensures
        forall|k: int| 0 <= k < cleaned(s).len() ==> !is_illegal(#[trigger] cleaned(s)[k]),
        has_single_underscores(cleaned(s)),
    decreases s.len(),
{
    if s.len() > 0 {
        let head = cleaned(s.drop_last());
        lemma_cleaned(s.drop_last());
        let all = cleaned(s);
        assert forall|k: int| 0 <= k < all.len() implies !is_illegal(#[trigger] all[k]) by {
            if k < head.len() {
                assert(all[k] == head[k]);
            }
        }
        assert forall|k: int| 0 <= k < all.len() - 1 implies !(#[trigger] all[k] == '_' && all[k + 1]
            == '_') by {
            assert(all[k] == head[k]);
            if k + 1 < head.len() {
                assert(all[k + 1] == head[k + 1]);
            }
        }
    }
}

proof fn lemma_cleaned_unchanged(s: Seq<char>)
    requires
        forall|k: int| 0 <= k < s.len() ==> !is_illegal(#[trigger] s[k]),
        has_single_underscores(s),
    ensures
        cleaned(s) == s,
    decreases s.len(),
{
    if s.len() > 0 {
        let front = s.drop_last();
        assert forall|k: int| 0 <= k < front.len() implies !is_illegal(#[trigger] front[k]) by {
            assert(front[k] == s[k]);
        }
        assert forall|k: int| 0 <= k < front.len() - 1 implies !(#[trigger] front[k] == '_'
            && front[k + 1] == '_') by {
            assert(front[k] == s[k]);
        }
        lemma_cleaned_unchanged(front);
        assert(!is_illegal(s[s.len() - 1]));
        if front.len() > 0 {
            assert(front.last() == s[s.len() - 2]);
        }
        assert(cleaned(s) =~= s);
    } else {
        assert(cleaned(s) =~= s);
    }
}

/// Whatever the text, the component made of it is safe.
pub proof fn law_component_safe(s: Seq<char>)
    ensures
        is_safe_component(component(s)),
        component(s) != "."@,
        component(s) != ".."@,
{
    reveal_strlit("capture");
    reveal_strlit(".");
    reveal_strlit("..");
    assert("."@[0] == '.');
    assert(".."@[0] == '.');
    lemma_cleaned(s);
    let body = cleaned(s);
    let r = crate::text::lemma_trim(body, CharClass::DotOrWhitespace);
    let t = body.subrange(r.0, r.1);
    assert forall|k: int| 0 <= k < t.len() implies !is_illegal(#[trigger] t[k]) by {
        assert(t[k] == body[r.0 + k]);
    }
    assert forall|k: int| 0 <= k < t.len() - 1 implies !(#[trigger] t[k] == '_' && t[k + 1]
        == '_') by {
        assert(t[k] == body[r.0 + k]);
        assert(t[k + 1] == body[r.0 + k + 1]);
    }
}

/// A safe component is kept as it is; so cleaning twice changes nothing.
pub proof fn law_component_idempotent(s: Seq<char>)
    ensures
        is_safe_component(s) ==> component(s) == s,
        component(component(s)) == component(s),
{
    law_component_safe(s);
    if is_safe_component(s) {
        lemma_cleaned_unchanged(s);
        crate::text::lemma_trim_unchanged(s, CharClass::DotOrWhitespace);
    }
    let t = component(s);
    lemma_cleaned_unchanged(t);
    crate::text::lemma_trim_unchanged(t, CharClass::DotOrWhitespace);
}

proof fn lemma_kept_folders_safe(parts: Seq<Seq<char>>)
    ensures
        forall|i: int|
            0 <= i < kept_folders(parts).len() ==> is_safe_component(
                #[trigger] kept_folders(parts)[i],
            ),
    decreases parts.len(),
{
    if parts.len() > 0 {
        lemma_kept_folders_safe(parts.drop_last());
        law_component_safe(parts.last());
        let head = kept_folders(parts.drop_last());
        let all = kept_folders(parts);
        assert forall|i: int| 0 <= i < all.len() implies is_safe_component(#[trigger] all[i]) by {
            if i < head.len() {
                assert(all[i] == head[i]);
            }
        }
    }
}

/// The output stays below the output directory: every folder and the file
/// stem is a safe component, whatever the subfolder setting, the template and
/// the window title hold.
pub proof fn law_output_below_directory(
    subfolder: Seq<char>,
    template: Seq<char>,
    timestamp: Seq<char>,
    window: Seq<char>,
)
    ensures
        forall|i: int|
            0 <= i < folders_of(subfolder).len() ==> is_safe_component(
                #[trigger] folders_of(subfolder)[i],
            ),
        is_safe_component(component(rendered(template, timestamp, window))),
        is_safe_component(file_name_of(template, timestamp, window)),
{
    lemma_kept_folders_safe(crate::text::split(subfolder, CharClass::Slash));
    law_component_safe(rendered(template, timestamp, window));
    reveal_strlit(".png");
    let stem = component(rendered(template, timestamp, window));
    let name = file_name_of(template, timestamp, window);
    assert forall|k: int| 0 <= k < name.len() implies !is_illegal(#[trigger] name[k]) by {
        if k < stem.len() {
            assert(name[k] == stem[k]);
        } else {
            assert(name[k] == ".png"@[k - stem.len()]);
        }
    }
    assert(name.last() == ".png"@[3]);
    assert forall|k: int| 0 <= k < name.len() - 1 implies !(#[trigger] name[k] == '_' && name[k + 1]
        == '_') by {
        if k + 1 < stem.len() {
            assert(name[k] == stem[k]);
            assert(name[k + 1] == stem[k + 1]);
        } else {
            assert(name[k + 1] == ".png"@[k + 1 - stem.len()]);
        }
    }
}

proof fn lemma_replaced_without(s: Seq<char>, pat: Seq<char>, with: Seq<char>, at: int)
    requires
        pat.len() > 0,
        0 <= at <= s.len(),
        forall|i: int| !crate::text::occurs_at(s, pat, i),
    ensures
        crate::text::replaced_from(s, pat, with, at) == s.subrange(at, s.len() as int),
    decreases s.len() - at,
{
    if at < s.len() {
        lemma_replaced_without(s, pat, with, at + 1);
        assert(seq![s[at]] + s.subrange(at + 1, s.len() as int) =~= s.subrange(at, s.len() as int));
    } else {
        assert(s.subrange(at, s.len() as int) =~= Seq::empty());
    }
}

/// A template without tokens is its own rendering.
pub proof fn law_template_without_tokens(
    template: Seq<char>,
    timestamp: Seq<char>,
    window: Seq<char>,
)
    requires
        forall|i: int| !crate::text::occurs_at(template, "{timestamp}"@, i),
        forall|i: int| !crate::text::occurs_at(template, "{window}"@, i),
    ensures
        rendered(template, timestamp, window) == template,
{
    reveal_strlit("{timestamp}");
    reveal_strlit("{window}");
    lemma_replaced_without(template, "{timestamp}"@, timestamp, 0);
    lemma_replaced_without(template, "{window}"@, window, 0);
    assert(template.subrange(0, template.len() as int) =~= template);
}

/// Ordered by the lower-case name.
pub open spec fn is_ordered(s: Seq<Preset>) -> bool {
    forall|i: int, j: int|
        0 <= i <= j < s.len() ==> crate::text::lex_le(
            sort_key(#[trigger] s[i]),
            sort_key(#[trigger] s[j]),
        )
}

proof fn lemma_inserted_ordered(s: Seq<Preset>, p: Preset)
    requires
        is_ordered(s),
    ensures
        is_ordered(inserted(s, p)),
        inserted(s, p).to_multiset() =~= s.to_multiset().insert(p),
        inserted(s, p).len() == s.len() + 1,
        forall|k: int|
            0 <= k < s.len() + 1 ==> #[trigger] inserted(s, p)[k] == p || s.contains(
                inserted(s, p)[k],
            ),
    decreases s.len(),
{
    broadcast use vstd::seq_lib::group_to_multiset_ensures;

    let all = inserted(s, p);
    if s.len() == 0 || crate::text::lex_le(sort_key(s.last()), sort_key(p)) {
        assert forall|i: int, j: int| 0 <= i <= j < all.len() implies crate::text::lex_le(
            sort_key(#[trigger] all[i]),
            sort_key(#[trigger] all[j]),
        ) by {
            if j == s.len() {
                crate::text::lemma_lex_total(sort_key(p), sort_key(p));
                if i < s.len() {
                    assert(all[i] == s[i]);
                    assert(crate::text::lex_le(sort_key(s[i]), sort_key(s[s.len() - 1])));
                    crate::text::lemma_lex_trans(
                        sort_key(s[i]),
                        sort_key(s.last()),
                        sort_key(p),
                    );
                }
            } else {
                assert(all[i] == s[i] && all[j] == s[j]);
            }
        }
        assert forall|k: int| 0 <= k < s.len() + 1 implies #[trigger] all[k] == p || s.contains(
            all[k],
        ) by {
            if k < s.len() {
                assert(all[k] == s[k]);
            }
        }
    } else {
        let front = s.drop_last();
        assert forall|i: int, j: int| 0 <= i <= j < front.len() implies crate::text::lex_le(
            sort_key(#[trigger] front[i]),
            sort_key(#[trigger] front[j]),
        ) by {
            assert(front[i] == s[i] && front[j] == s[j]);
        }
        lemma_inserted_ordered(front, p);
        let inner = inserted(front, p);
        assert forall|k: int| 0 <= k < inner.len() implies crate::text::lex_le(
            sort_key(#[trigger] inner[k]),
            sort_key(s.last()),
        ) by {
            crate::text::lemma_lex_total(sort_key(s.last()), sort_key(p));
            if inner[k] != p {
                let m = choose|m: int| 0 <= m < front.len() && front[m] == inner[k];
                assert(s[m] == inner[k]);
                assert(crate::text::lex_le(sort_key(s[m]), sort_key(s[s.len() - 1])));
            }
        }
        assert forall|i: int, j: int| 0 <= i <= j < all.len() implies crate::text::lex_le(
            sort_key(#[trigger] all[i]),
            sort_key(#[trigger] all[j]),
        ) by {
            crate::text::lemma_lex_total(sort_key(s.last()), sort_key(s.last()));
            if i < inner.len() {
                assert(all[i] == inner[i]);
            }
            if j < inner.len() {
                assert(all[j] == inner[j]);
            }
        }
        assert forall|k: int| 0 <= k < s.len() + 1 implies #[trigger] all[k] == p || s.contains(
            all[k],
        ) by {
            if k < inner.len() {
                assert(all[k] == inner[k]);
                if inner[k] != p {
                    let m = choose|m: int| 0 <= m < front.len() && front[m] == inner[k];
                    assert(s[m] == inner[k]);
                }
            } else {
                assert(all[k] == s[s.len() - 1]);
            }
        }
        assert(s =~= front.push(s.last()));
        assert(all =~= inner.push(s.last()));
        assert(front.to_multiset().insert(p).insert(s.last()) =~= front.to_multiset().insert(
            s.last(),
        ).insert(p));
    }
}

/// Loading orders the presets by their lower-case names and neither loses nor
/// adds one.
pub proof fn law_load_orders(s: Seq<Preset>)
    ensures
        is_ordered(ordered(s)),
        ordered(s).to_multiset() =~= s.to_multiset(),
    decreases s.len(),
{
    broadcast use vstd::seq_lib::group_to_multiset_ensures;

    if s.len() > 0 {
        law_load_orders(s.drop_last());
        lemma_inserted_ordered(ordered(s.drop_last()), s.last());
        assert(s =~= s.drop_last().push(s.last()));
    } else {
        assert(ordered(s) =~= s);
    }
}

/// Each action and each target has its own word in a preset file and its own
/// label, which begins as its name does.
pub proof fn law_words_begin_like_their_names(a: PostAction, k: PresetTargetKind)
    ensures
        a.word()[0] == (match a {
            PostAction::SaveOnly => 's',
            PostAction::Editor => 'e',
            PostAction::CopyOnly => 'c',
        }),
        k.word()[0] == (match k {
            PresetTargetKind::Fullscreen => 'f',
            PresetTargetKind::Region => 'r',
            PresetTargetKind::Window => 'w',
            PresetTargetKind::ExactDims => 'e',
            PresetTargetKind::Object => 'o',
        }),
        a.text()[0] == (match a {
            PostAction::SaveOnly | PostAction::Editor => 'S',
            PostAction::CopyOnly => 'C',
        }),
        a is Editor <==> a.text()[5] == '+',
        k.text()[0] == (match k {
            PresetTargetKind::Fullscreen => 'F',
            PresetTargetKind::Region | PresetTargetKind::Window => 'R',
            PresetTargetKind::ExactDims => 'E',
            PresetTargetKind::Object => 'O',
        }),
        k is Region <==> k.text().len() == 6,
{
    reveal_strlit("save-only");
    reveal_strlit("editor");
    reveal_strlit("copy-only");
    reveal_strlit("fullscreen");
    reveal_strlit("region");
    reveal_strlit("window");
    reveal_strlit("exact-dims");
    reveal_strlit("object");
    reveal_strlit("Save only");
    reveal_strlit("Save + open editor");
    reveal_strlit("Copy to clipboard only");
    reveal_strlit("Fullscreen");
    reveal_strlit("Region");
    reveal_strlit("Region / window");
    reveal_strlit("Exact dimensions");
    reveal_strlit("Object / menu");
}

/// A capture is saved unless it is only copied, copied unless it is edited, and
/// the editor is opened on what was saved.
pub proof fn law_actions_take_their_steps(a: PostAction)
    ensures
        a.to_do().contains(PostStep::Save) <==> !(a is CopyOnly),
        a.to_do().contains(PostStep::Copy) <==> !(a is Editor),
        a.to_do().contains(PostStep::OpenEditor) <==> a is Editor,
        !(a is CopyOnly) ==> a.to_do()[0] == PostStep::Save,
        a.to_do().len() <= 2,
{
    let s = a.to_do();
    assert(s.len() > 0 ==> s.contains(s[0]));
    assert(s.len() > 1 ==> s.contains(s[1]));
}

/// The letters and digits of a text, in lower case.
pub open spec fn lower_alnum(s: Seq<char>) -> Seq<char>
    decreases s.len(),
{
    if s.len() == 0 {
        Seq::empty()
    } else {
        let head = lower_alnum(s.drop_last());
        if crate::text::is_ascii_alnum(s.last()) {
            head.push(crate::text::lower_char(s.last()))
        } else {
            head
        }
    }
}

proof fn lemma_lower_alnum_adds(a: Seq<char>, b: Seq<char>)
    ensures
        lower_alnum(a + b) == lower_alnum(a) + lower_alnum(b),
    decreases b.len(),
{
    if b.len() == 0 {
        assert(a + b =~= a);
        assert(lower_alnum(a) + lower_alnum(b) =~= lower_alnum(a));
    } else {
        assert((a + b).drop_last() =~= a + b.drop_last());
        lemma_lower_alnum_adds(a, b.drop_last());
        assert(lower_alnum(a + b) =~= lower_alnum(a) + lower_alnum(b));
    }
}

proof fn lemma_slug_body_letters(s: Seq<char>)
    ensures
        lower_alnum(slug_body(s)) == lower_alnum(s),
    decreases s.len(),
{
    if s.len() > 0 {
        lemma_slug_body_letters(s.drop_last());
        let head = slug_body(s.drop_last());
        let c = s.last();
        if crate::text::is_ascii_alnum(c) {
            assert(head.push(crate::text::lower_char(c)).drop_last() =~= head);
        } else if slug_body(s) != head {
            assert(head.push('-').drop_last() =~= head);
        }
    }
}

/// Trimming dashes keeps letters and digits.
proof fn lemma_trim_keeps_letters(s: Seq<char>)
    ensures
        lower_alnum(crate::text::trim(s, CharClass::Dash)) == lower_alnum(s),
{
    let (from, to) = crate::text::lemma_trim(s, CharClass::Dash);
    let a = s.subrange(0, from);
    let b = s.subrange(from, to);
    let c = s.subrange(to, s.len() as int);
    assert(s =~= a + b + c);
    lemma_lower_alnum_adds(a + b, c);
    lemma_lower_alnum_adds(a, b);
    assert forall|i: int| 0 <= i < a.len() implies !crate::text::is_ascii_alnum(#[trigger] a[i]) by {
        assert(CharClass::Dash.has(s[i]));
    }
    assert forall|i: int| 0 <= i < c.len() implies !crate::text::is_ascii_alnum(#[trigger] c[i]) by {
        assert(CharClass::Dash.has(s[to + i]));
    }
    lemma_no_letters(a);
    lemma_no_letters(c);
    assert(lower_alnum(a) + lower_alnum(b) + lower_alnum(c) =~= lower_alnum(b));
}

proof fn lemma_no_letters(s: Seq<char>)
    requires
        forall|i: int| 0 <= i < s.len() ==> !crate::text::is_ascii_alnum(#[trigger] s[i]),
    ensures
        lower_alnum(s).len() == 0,
    decreases s.len(),
{
    if s.len() > 0 {
        assert(!crate::text::is_ascii_alnum(s[s.len() - 1]));
        assert forall|i: int| 0 <= i < s.drop_last().len() implies !crate::text::is_ascii_alnum(
            #[trigger] s.drop_last()[i],
        ) by {
            assert(s.drop_last()[i] == s[i]);
        }
        lemma_no_letters(s.drop_last());
    }
}

/// A slug has the letters and digits of its name, in order and in lower case;
/// a name without any has a slug of its own.
pub proof fn law_slug_keeps_letters(name: Seq<char>)
    ensures
        lower_alnum(name).len() > 0 ==> lower_alnum(slug_of(name)) == lower_alnum(name),
        lower_alnum(name).len() == 0 && (forall|i: int|
            0 <= i < slug_body(name).len() ==> #[trigger] slug_body(name)[i] == '-') ==> slug_of(
            name,
        ).len() == 6,
{
    reveal_strlit("preset");
    lemma_slug_body_letters(name);
    lemma_trim_keeps_letters(slug_body(name));
    let t = crate::text::trim(slug_body(name), CharClass::Dash);
    if lower_alnum(name).len() == 0 && (forall|i: int|
        0 <= i < slug_body(name).len() ==> #[trigger] slug_body(name)[i] == '-') {
        let (from, to) = crate::text::lemma_trim(slug_body(name), CharClass::Dash);
        if t.len() > 0 {
            assert(t[0] == slug_body(name)[from]);
            assert(CharClass::Dash.has(t[0]));
        }
    }
}

/// The characters of a text that a file name may hold, without underscores.
pub open spec fn legal_kept(s: Seq<char>) -> Seq<char>
    decreases s.len(),
{
    if s.len() == 0 {
        Seq::empty()
    } else {
        let head = legal_kept(s.drop_last());
        if is_illegal(s.last()) || s.last() == '_' {
            head
        } else {
            head.push(s.last())
        }
    }
}

/// Making a name legal keeps its legal characters, in order: what is replaced
/// becomes an underscore, and underscores do not repeat.
pub proof fn law_cleaning_keeps_legal_characters(s: Seq<char>)
    ensures
        legal_kept(cleaned(s)) == legal_kept(s),
        cleaned(s).len() <= s.len(),
        has_single_underscores(s) && (forall|i: int| 0 <= i < s.len() ==> !is_illegal(#[trigger] s[i]))
            ==> cleaned(s) == s,
    decreases s.len(),
{
    if s.len() > 0 {
        law_cleaning_keeps_legal_characters(s.drop_last());
        let head = cleaned(s.drop_last());
        let c = made_legal(s.last());
        assert(head.push(c).drop_last() =~= head);
        if has_single_underscores(s) && (forall|i: int|
            0 <= i < s.len() ==> !is_illegal(#[trigger] s[i])) {
            lemma_cleaned_unchanged(s);
        }
    } else {
        assert(cleaned(s) =~= s);
    }
}

/// The nine characters that no file name may hold, and the control characters,
/// are illegal; letters, digits, spaces, dots and dashes are not.
pub proof fn law_illegal_characters(c: char)
    ensures
        crate::text::is_control(c) ==> is_illegal(c),
        CharClass::Slash.has(c) ==> is_illegal(c),
        crate::text::is_ascii_alnum(c) || c == ' ' || c == '.' || c == '-' || c == '_' ==> !is_illegal(
            c,
        ) && made_legal(c) == c,
        is_illegal(c) ==> made_legal(c) == '_',
        !is_illegal(made_legal(c)),
        is_illegal('<') && is_illegal('>') && is_illegal(':') && is_illegal('"') && is_illegal('|')
            && is_illegal('?') && is_illegal('*'),
        is_slug_gap(c) ==> !crate::text::is_ascii_alnum(c),
        is_slug_gap(' ') && is_slug_gap('-') && is_slug_gap('_'),
{
}

/// A template of one token is rendered as what the token stands for.
pub proof fn law_tokens_are_rendered(timestamp: Seq<char>, window: Seq<char>)
    requires
        forall|i: int| 0 <= i < timestamp.len() ==> #[trigger] timestamp[i] != '{',
    ensures
        rendered("{timestamp}"@, timestamp, window) == timestamp,
        rendered("{window}"@, timestamp, window) == window,
{
    reveal_strlit("{timestamp}");
    reveal_strlit("{window}");
    let t = "{timestamp}"@;
    let w = "{window}"@;
    crate::text::law_replacing_goes_from_the_left(Seq::empty(), 'x', t, timestamp);
    crate::text::law_replacing_goes_from_the_left(Seq::empty(), 'x', w, window);
    assert forall|i: int| !crate::text::occurs_at(timestamp, w, i) by {
        if crate::text::occurs_at(timestamp, w, i) {
            assert(timestamp.subrange(i, i + w.len())[0] == timestamp[i]);
        }
    }
    lemma_replaced_without(timestamp, w, window, 0);
    assert(timestamp.subrange(0, timestamp.len() as int) =~= timestamp);
    assert forall|i: int| !crate::text::occurs_at(w, t, i) by {}
    lemma_replaced_without(w, t, timestamp, 0);
    assert(w.subrange(0, w.len() as int) =~= w);
}

proof fn lemma_kept_folders_add(a: Seq<Seq<char>>, b: Seq<Seq<char>>)
    ensures
        kept_folders(a + b) == kept_folders(a) + kept_folders(b),
    decreases b.len(),
{
    if b.len() == 0 {
        assert(a + b =~= a);
        assert(kept_folders(a) + kept_folders(b) =~= kept_folders(a));
    } else {
        assert((a + b).drop_last() =~= a + b.drop_last());
        lemma_kept_folders_add(a, b.drop_last());
        assert(kept_folders(a + b) =~= kept_folders(a) + kept_folders(b));
    }
}

/// The folders of a path are kept in order, each made legal, but for empty ones
/// and those that are one or two dots.
pub proof fn law_folders_are_kept_in_order(a: Seq<Seq<char>>, part: Seq<char>, b: Seq<Seq<char>>)
    ensures
        kept_folders(a + b) == kept_folders(a) + kept_folders(b),
        kept_folders(seq![part]) == (if part.len() == 0 || part == seq!['.'] || part == seq![
            '.',
            '.',
        ] {
            Seq::empty()
        } else {
            seq![component(part)]
        }),
        kept_folders(Seq::empty()).len() == 0,
{
    reveal_strlit(".");
    reveal_strlit("..");
    assert("."@ =~= seq!['.']);
    assert(".."@ =~= seq!['.', '.']);
    lemma_kept_folders_add(a, b);
    assert(seq![part].drop_last() =~= Seq::<Seq<char>>::empty());
    assert(kept_folders(seq![part].drop_last()) =~= Seq::<Seq<char>>::empty());
    if is_skipped_folder(part) {
        assert(kept_folders(seq![part]) =~= Seq::empty());
    } else {
        assert(kept_folders(seq![part]) =~= seq![component(part)]);
    }
}

/// A window without a title counts as unknown; a file name is the template with
/// its tokens filled in, made legal, as a PNG file.
pub proof fn law_file_names_are_png(
    template: Seq<char>,
    timestamp: Seq<char>,
    title: Option<Seq<char>>,
)
    ensures
        ({
            let f = file_name_of(template, timestamp, title_of(title));
            &&& f.len() > 4
            &&& f.skip(f.len() - 4) == ".png"@
            &&& f.take(f.len() - 4) == component(rendered(template, timestamp, title_of(title)))
        }),
        title matches Some(t) ==> t.len() > 0 ==> title_of(title) == t,
        title is None || title->Some_0.len() == 0 ==> title_of(title) == "unknown"@,
{
    reveal_strlit(".png");
    let stem = component(rendered(template, timestamp, title_of(title)));
    let f = file_name_of(template, timestamp, title_of(title));
    law_component_safe(rendered(template, timestamp, title_of(title)));
    assert(f.take(f.len() - 4) =~= stem);
    assert(f.skip(f.len() - 4) =~= ".png"@);
}

proof fn lemma_lists_add(a: Seq<Option<Preset>>, b: Seq<Option<Preset>>)
    ensures
        readable(a + b) == readable(a) + readable(b),
    decreases b.len(),
{
    if b.len() == 0 {
        assert(a + b =~= a);
        assert(readable(a) + readable(b) =~= readable(a));
    } else {
        assert((a + b).drop_last() =~= a + b.drop_last());
        lemma_lists_add(a, b.drop_last());
        assert(readable(a + b) =~= readable(a) + readable(b));
    }
}

proof fn lemma_bound_pairs_add(a: Seq<Preset>, b: Seq<Preset>)
    ensures
        bound_pairs(a + b) == bound_pairs(a) + bound_pairs(b),
    decreases b.len(),
{
    if b.len() == 0 {
        assert(a + b =~= a);
        assert(bound_pairs(a) + bound_pairs(b) =~= bound_pairs(a));
    } else {
        assert((a + b).drop_last() =~= a + b.drop_last());
        lemma_bound_pairs_add(a, b.drop_last());
        assert(bound_pairs(a + b) =~= bound_pairs(a) + bound_pairs(b));
    }
}

/// A file that cannot be read is left out and the others keep their order; the
/// presets with a hotkey are listed in order, the hotkey with its preset's name.
pub proof fn law_presets_are_listed_in_order(
    a: Seq<Option<Preset>>,
    b: Seq<Option<Preset>>,
    s: Seq<Preset>,
    t: Seq<Preset>,
    p: Preset,
)
    ensures
        readable(a + b) == readable(a) + readable(b),
        readable(seq![Some(p)]) == seq![p],
        readable(seq![None::<Preset>]).len() == 0,
        bound_pairs(s + t) == bound_pairs(s) + bound_pairs(t),
        bound_pairs(seq![p]) == (if crate::text::trim(p@.hotkey, CharClass::Whitespace).len() > 0 {
            seq![(p@.hotkey, p@.name)]
        } else {
            Seq::empty()
        }),
{
    lemma_lists_add(a, b);
    lemma_bound_pairs_add(s, t);
    assert(seq![Some(p)].drop_last() =~= Seq::<Option<Preset>>::empty());
    assert(seq![None::<Preset>].drop_last() =~= Seq::<Option<Preset>>::empty());
    assert(readable(seq![Some(p)].drop_last()) =~= Seq::<Preset>::empty());
    assert(readable(seq![None::<Preset>].drop_last()) =~= Seq::<Preset>::empty());
    assert(readable(seq![Some(p)]) =~= seq![p]);
    assert(seq![p].drop_last() =~= Seq::<Preset>::empty());
    assert(bound_pairs(seq![p].drop_last()) =~= Seq::<(Seq<char>, Seq<char>)>::empty());
    if crate::text::trim(p@.hotkey, CharClass::Whitespace).len() > 0 {
        assert(bound_pairs(seq![p]) =~= seq![(p@.hotkey, p@.name)]);
    }
}

/// A preset file keeps what is set and leaves out sizes that are zero and texts
/// that are empty; what a file leaves out is a plain region, saved only.
pub proof fn law_preset_files_hold_what_is_set(p: PresetView, r: PresetRecordView)
    ensures
        preset_recorded(p).width is None <==> p.width == 0,
        preset_recorded(p).height is None <==> p.height == 0,
        preset_recorded(p).hotkey is None <==> p.hotkey.len() == 0,
        preset_recorded(p).subfolder is None <==> p.subfolder.len() == 0,
        preset_recorded(p).name == Some(p.name) && preset_recorded(p).delay_ms == Some(p.delay_ms),
        preset_recorded(p).target == Some(p.target) && preset_recorded(p).post_action == Some(
            p.post_action,
        ),
        r.width matches Some(w) ==> preset_restored(r).width == w,
        r.height matches Some(h) ==> preset_restored(r).height == h,
        r.name matches Some(n) ==> preset_restored(r).name == n,
        r.hotkey matches Some(h) ==> preset_restored(r).hotkey == h,
        r.delay_ms matches Some(d) ==> preset_restored(r).delay_ms == d,
        r.target is None ==> preset_restored(r).target is Region,
        r.post_action is None ==> preset_restored(r).post_action is SaveOnly,
        r.width is None ==> preset_restored(r).width == 0,
        r.height is None ==> preset_restored(r).height == 0,
        r.delay_ms is None ==> preset_restored(r).delay_ms == 0,
        r.include_cursor is None ==> !preset_restored(r).include_cursor,
        r.hotkey is None ==> preset_restored(r).hotkey.len() == 0,
        r.subfolder is None ==> preset_restored(r).subfolder.len() == 0,
{
}

} // verus!
