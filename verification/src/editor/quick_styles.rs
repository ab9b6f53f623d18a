//! Quick styles: the knobs of a tool under a name, to be applied again.
use vstd::prelude::*;
use crate::editor::app::{AppView, EditorApp, Knobs};
use crate::editor::preset_panel::{blank, quoted};
use crate::editor::tools::Tool;
use crate::px::{Px, Rgba};
use crate::text::{from_chars, optional_text, push_text, same_str, to_chars, trim_chars, CharClass};

verus! {

// ---------------------------------------------------------------------------
// Kinds
// ---------------------------------------------------------------------------

/// The tools that have knobs worth keeping.
#[derive(Debug, Clone, Copy, PartialEq, Eq, Structural)]
pub enum StyleToolKind {
    Arrow,
    Text,
    Callout,
    Rect,
    Ellipse,
    Step,
    Blur,
    Magnify,
}

impl StyleToolKind {
    /// All kinds, in the order of the panel.
    pub const ALL: [StyleToolKind; 8] = [
        StyleToolKind::Arrow,
        StyleToolKind::Text,
        StyleToolKind::Callout,
        StyleToolKind::Rect,
        StyleToolKind::Ellipse,
        StyleToolKind::Step,
        StyleToolKind::Blur,
        StyleToolKind::Magnify,
    ];

    /// The name that is shown.
    pub fn label(self) -> (r: &'static str)
        ensures
            r@ == tool_of(self).text(),
    {
        match style_kind_to_tool(self) {
            Some(t) => t.label(),
            None => "",
        }
    }
}

/// The kind of a tool; none for a tool without knobs.
pub open spec fn kind_of(tool: Tool) -> Option<StyleToolKind> {
    match tool {
        Tool::Arrow => Some(StyleToolKind::Arrow),
        Tool::Text => Some(StyleToolKind::Text),
        Tool::Callout => Some(StyleToolKind::Callout),
        Tool::Rect => Some(StyleToolKind::Rect),
        Tool::Ellipse => Some(StyleToolKind::Ellipse),
        Tool::Step => Some(StyleToolKind::Step),
        Tool::Blur => Some(StyleToolKind::Blur),
        Tool::Magnify => Some(StyleToolKind::Magnify),
        _ => None,
    }
}

/// The tool of a kind.
pub open spec fn tool_of(kind: StyleToolKind) -> Tool {
    match kind {
        StyleToolKind::Arrow => Tool::Arrow,
        StyleToolKind::Text => Tool::Text,
        StyleToolKind::Callout => Tool::Callout,
        StyleToolKind::Rect => Tool::Rect,
        StyleToolKind::Ellipse => Tool::Ellipse,
        StyleToolKind::Step => Tool::Step,
        StyleToolKind::Blur => Tool::Blur,
        StyleToolKind::Magnify => Tool::Magnify,
    }
}

/// The kind of a tool; none for a tool without knobs.
pub fn tool_to_style_kind(tool: Tool) -> (r: Option<StyleToolKind>)
    ensures
        r == kind_of(tool),
{
    match tool {
        Tool::Arrow => Some(StyleToolKind::Arrow),
        Tool::Text => Some(StyleToolKind::Text),
        Tool::Callout => Some(StyleToolKind::Callout),
        Tool::Rect => Some(StyleToolKind::Rect),
        Tool::Ellipse => Some(StyleToolKind::Ellipse),
        Tool::Step => Some(StyleToolKind::Step),
        Tool::Blur => Some(StyleToolKind::Blur),
        Tool::Magnify => Some(StyleToolKind::Magnify),
        _ => None,
    }
}

/// The tool of a kind.
pub fn style_kind_to_tool(kind: StyleToolKind) -> (r: Option<Tool>)
    ensures
        r == Some(tool_of(kind)),
{
    match kind {
        StyleToolKind::Arrow => Some(Tool::Arrow),
        StyleToolKind::Text => Some(Tool::Text),
        StyleToolKind::Callout => Some(Tool::Callout),
        StyleToolKind::Rect => Some(Tool::Rect),
        StyleToolKind::Ellipse => Some(Tool::Ellipse),
        StyleToolKind::Step => Some(Tool::Step),
        StyleToolKind::Blur => Some(Tool::Blur),
        StyleToolKind::Magnify => Some(Tool::Magnify),
    }
}

/// Each kind has a tool of its own, and that tool's kind is the one it came from.
pub proof fn law_kinds_and_tools_pair_up(kind: StyleToolKind, tool: Tool)
    ensures
        kind_of(tool_of(kind)) == Some(kind),
        kind_of(tool) == Some(kind) ==> tool == tool_of(kind),
{
}

// ---------------------------------------------------------------------------
// Values
// ---------------------------------------------------------------------------

/// The knobs that a style sets.
#[derive(Debug, Clone, Copy, PartialEq, Eq, Structural)]
pub struct StyleValues {
    pub color: Option<Rgba>,
    pub stroke_color: Option<Rgba>,
    pub use_fill: Option<bool>,
    pub thickness: Option<Px>,
    pub text_size: Option<Px>,
    pub step_radius: Option<Px>,
    pub magnify_circular: Option<bool>,
    pub blur_radius: Option<Px>,
}

/// A style that sets nothing.
pub open spec fn no_values() -> StyleValues {
    StyleValues {
        color: None,
        stroke_color: None,
        use_fill: None,
        thickness: None,
        text_size: None,
        step_radius: None,
        magnify_circular: None,
        blur_radius: None,
    }
}

/// The knobs that matter to a kind, as they stand.
pub open spec fn captured(k: Knobs, kind: StyleToolKind) -> StyleValues {
    match kind {
        StyleToolKind::Arrow => StyleValues {
            color: Some(k.color),
            thickness: Some(k.thickness),
            ..no_values()
        },
        StyleToolKind::Text => StyleValues {
            color: Some(k.color),
            text_size: Some(k.text_size),
            ..no_values()
        },
        StyleToolKind::Callout => StyleValues {
            color: Some(k.color),
            stroke_color: Some(k.stroke_color),
            use_fill: Some(k.use_fill),
            thickness: Some(k.thickness),
            text_size: Some(k.text_size),
            ..no_values()
        },
        StyleToolKind::Rect | StyleToolKind::Ellipse => StyleValues {
            color: Some(k.color),
            stroke_color: Some(k.stroke_color),
            use_fill: Some(k.use_fill),
            thickness: Some(k.thickness),
            ..no_values()
        },
        StyleToolKind::Step => StyleValues {
            color: Some(k.color),
            step_radius: Some(k.step_radius),
            ..no_values()
        },
        StyleToolKind::Blur => StyleValues { blur_radius: Some(k.blur_radius), ..no_values() },
        StyleToolKind::Magnify => StyleValues {
            stroke_color: Some(k.stroke_color),
            thickness: Some(k.thickness),
            magnify_circular: Some(k.magnify_circular),
            ..no_values()
        },
    }
}

/// The value that a style sets, or else the one that is there.
pub open spec fn or_else<T>(set: Option<T>, there: T) -> T {
    match set {
        Some(v) => v,
        None => there,
    }
}

/// The knobs after a style has been applied.
pub open spec fn restyled(k: Knobs, v: StyleValues) -> Knobs {
    Knobs {
        color: or_else(v.color, k.color),
        stroke_color: or_else(v.stroke_color, k.stroke_color),
        use_fill: or_else(v.use_fill, k.use_fill),
        thickness: or_else(v.thickness, k.thickness),
        text_size: or_else(v.text_size, k.text_size),
        step_radius: or_else(v.step_radius, k.step_radius),
        magnify_circular: or_else(v.magnify_circular, k.magnify_circular),
        blur_radius: or_else(v.blur_radius, k.blur_radius),
    }
}

impl Default for StyleValues {
    fn default() -> (r: Self)
        ensures
            r == no_values(),
    {
        StyleValues {
            color: None,
            stroke_color: None,
            use_fill: None,
            thickness: None,
            text_size: None,
            step_radius: None,
            magnify_circular: None,
            blur_radius: None,
        }
    }
}

/// The knobs that matter to a kind, as they stand.
pub fn capture_active_style_values(k: &Knobs, kind: StyleToolKind) -> (r: StyleValues)
    ensures
        r == captured(*k, kind),
{
    let mut v = StyleValues::default();
    match kind {
        StyleToolKind::Arrow => {
            v.color = Some(k.color);
            v.thickness = Some(k.thickness);
        },
        StyleToolKind::Text => {
            v.color = Some(k.color);
            v.text_size = Some(k.text_size);
        },
        StyleToolKind::Callout => {
            v.color = Some(k.color);
            v.stroke_color = Some(k.stroke_color);
            v.use_fill = Some(k.use_fill);
            v.thickness = Some(k.thickness);
            v.text_size = Some(k.text_size);
        },
        StyleToolKind::Rect | StyleToolKind::Ellipse => {
            v.color = Some(k.color);
            v.stroke_color = Some(k.stroke_color);
            v.use_fill = Some(k.use_fill);
            v.thickness = Some(k.thickness);
        },
        StyleToolKind::Step => {
            v.color = Some(k.color);
            v.step_radius = Some(k.step_radius);
        },
        StyleToolKind::Blur => {
            v.blur_radius = Some(k.blur_radius);
        },
        StyleToolKind::Magnify => {
            v.stroke_color = Some(k.stroke_color);
            v.thickness = Some(k.thickness);
            v.magnify_circular = Some(k.magnify_circular);
        },
    }
    v
}

/// Sets the knobs that a style sets.
pub fn set_knobs(k: &mut Knobs, v: &StyleValues)
    ensures
        *final(k) == restyled(*old(k), *v),
{
    if let Some(c) = v.color {
        k.color = c;
    }
    if let Some(c) = v.stroke_color {
        k.stroke_color = c;
    }
    if let Some(f) = v.use_fill {
        k.use_fill = f;
    }
    if let Some(t) = v.thickness {
        k.thickness = t;
    }
    if let Some(t) = v.text_size {
        k.text_size = t;
    }
    if let Some(r) = v.step_radius {
        k.step_radius = r;
    }
    if let Some(c) = v.magnify_circular {
        k.magnify_circular = c;
    }
    if let Some(b) = v.blur_radius {
        k.blur_radius = b;
    }
}

// ---------------------------------------------------------------------------
// The store
// ---------------------------------------------------------------------------

/// A style under its name.
#[derive(Debug)]
pub struct QuickStyle {
    pub name: String,
    pub tool: StyleToolKind,
    pub values: StyleValues,
}

/// A style as plain values.
#[verifier::ext_equal]
pub struct StyleView {
    pub name: Seq<char>,
    pub tool: StyleToolKind,
    pub values: StyleValues,
}

impl View for QuickStyle {
    type V = StyleView;

    open spec fn view(&self) -> StyleView {
        StyleView { name: self.name@, tool: self.tool, values: self.values }
    }
}

impl Clone for QuickStyle {
    fn clone(&self) -> (r: Self)
        ensures
            r@ == self@,
    {
        QuickStyle { name: self.name.clone(), tool: self.tool, values: self.values }
    }
}

/// All styles.
#[derive(Debug)]
pub struct StyleStore {
    pub styles: Vec<QuickStyle>,
}

/// The views of a list of styles.
pub open spec fn style_views(v: Seq<QuickStyle>) -> Seq<StyleView> {
    v.map_values(|s: QuickStyle| s@)
}

impl View for StyleStore {
    type V = Seq<StyleView>;

    open spec fn view(&self) -> Seq<StyleView> {
        style_views(self.styles@)
    }
}

/// Whether a style is the one of this kind and name.
pub open spec fn is_named(s: StyleView, kind: StyleToolKind, name: Seq<char>) -> bool {
    s.tool == kind && s.name == name
}

/// No kind has two styles of one name.
pub open spec fn distinct(s: Seq<StyleView>) -> bool {
    forall|i: int, j: int|
        0 <= i < j < s.len() ==> !(#[trigger] s[i].tool == #[trigger] s[j].tool && s[i].name
            == s[j].name)
}

/// The styles of a kind, in order.
pub open spec fn of_kind(s: Seq<StyleView>, kind: StyleToolKind) -> Seq<StyleView>
    decreases s.len(),
{
    if s.len() == 0 {
        Seq::empty()
    } else {
        let head = of_kind(s.drop_last(), kind);
        if s.last().tool == kind {
            head.push(s.last())
        } else {
            head
        }
    }
}

/// The place of the first style of this kind and name, counted from `at`.
pub open spec fn named_from(s: Seq<StyleView>, kind: StyleToolKind, name: Seq<char>, at: int) -> Option<
    int,
>
    decreases s.len() - at,
{
    if at < 0 || at >= s.len() {
        None
    } else if is_named(s[at], kind, name) {
        Some(at)
    } else {
        named_from(s, kind, name, at + 1)
    }
}

/// The first style of this kind and name.
pub open spec fn named(s: Seq<StyleView>, kind: StyleToolKind, name: Seq<char>) -> Option<
    StyleView,
> {
    match named_from(s, kind, name, 0) {
        Some(i) => Some(s[i]),
        None => None,
    }
}

/// The list with a style put in the place of the one of its name, or at the end.
pub open spec fn upserted(s: Seq<StyleView>, style: StyleView) -> Seq<StyleView> {
    match named_from(s, style.tool, style.name, 0) {
        Some(i) => s.update(i, style),
        None => s.push(style),
    }
}

/// The list without the styles of this kind and name.
pub open spec fn removed(s: Seq<StyleView>, kind: StyleToolKind, name: Seq<char>) -> Seq<StyleView>
    decreases s.len(),
{
    if s.len() == 0 {
        Seq::empty()
    } else {
        let head = removed(s.drop_last(), kind, name);
        if is_named(s.last(), kind, name) {
            head
        } else {
            head.push(s.last())
        }
    }
}

proof fn lemma_named_from(s: Seq<StyleView>, kind: StyleToolKind, name: Seq<char>, at: int)
    requires
        0 <= at <= s.len(),
    ensures
        match named_from(s, kind, name, at) {
            Some(i) => at <= i < s.len() && is_named(s[i], kind, name) && forall|j: int|
                at <= j < i ==> !is_named(#[trigger] s[j], kind, name),
            None => forall|j: int| at <= j < s.len() ==> !is_named(#[trigger] s[j], kind, name),
        },
    decreases s.len() - at,
{
    if at < s.len() && !is_named(s[at], kind, name) {
        lemma_named_from(s, kind, name, at + 1);
    }
}

impl StyleStore {
    /// The styles of a kind, in order.
    pub fn for_tool(&self, kind: StyleToolKind) -> (r: Vec<&QuickStyle>)
        ensures
            r@.map_values(|s: &QuickStyle| s@) == of_kind(self@, kind),
    {
        let mut out: Vec<&QuickStyle> = Vec::new();
        let mut i: usize = 0;
        while i < self.styles.len()
            invariant
                i <= self.styles@.len(),
                out@.map_values(|s: &QuickStyle| s@) == of_kind(self@.take(i as int), kind),
            decreases self.styles@.len() - i,
        {
            assert(self@.take(i + 1).drop_last() =~= self@.take(i as int));
            if self.styles[i].tool == kind {
                out.push(&self.styles[i]);
                assert(out@.map_values(|s: &QuickStyle| s@) =~= of_kind(
                    self@.take(i as int),
                    kind,
                ).push(self@[i as int]));
            }
            i += 1;
        }
        assert(self@.take(i as int) =~= self@);
        out
    }

    /// The place of the first style of this kind and name.
    fn position(&self, kind: StyleToolKind, name: &str) -> (r: Option<usize>)
        ensures
            match r {
                Some(i) => i < self.styles@.len() && named_from(self@, kind, name@, 0) == Some(
                    i as int,
                ),
                None => named_from(self@, kind, name@, 0) is None,
            },
    {
        let mut i: usize = 0;
        while i < self.styles.len()
            invariant
                i <= self.styles@.len(),
                named_from(self@, kind, name@, 0) == named_from(self@, kind, name@, i as int),
            decreases self.styles@.len() - i,
        {
            if self.styles[i].tool == kind && same_str(self.styles[i].name.as_str(), name) {
                return Some(i);
            }
            i += 1;
        }
        None
    }

    /// The first style of this kind and name.
    pub fn find(&self, kind: StyleToolKind, name: &str) -> (r: Option<&QuickStyle>)
        ensures
            match r {
                Some(s) => named(self@, kind, name@) == Some(s@),
                None => named(self@, kind, name@) is None,
            },
    {
        match self.position(kind, name) {
            Some(i) => Some(&self.styles[i]),
            None => None,
        }
    }

    /// Puts a style in the place of the one of its name, or at the end.
    pub fn upsert(&mut self, style: QuickStyle)
        ensures
            final(self)@ == upserted(old(self)@, style@),
    {
        let ghost before = self@;
        let ghost new = style@;
        match self.position(style.tool, style.name.as_str()) {
            Some(i) => {
                self.styles.set(i, style);
                assert(self@ =~= before.update(i as int, new));
            },
            None => {
                self.styles.push(style);
                assert(self@ =~= before.push(new));
            },
        }
    }

    /// Takes out the styles of this kind and name.
    pub fn remove(&mut self, kind: StyleToolKind, name: &str)
        ensures
            final(self)@ == removed(old(self)@, kind, name@),
    {
        let ghost before = self@;
        let mut kept: Vec<QuickStyle> = Vec::new();
        let mut i: usize = 0;
        while i < self.styles.len()
            invariant
                i <= self.styles@.len(),
                self@ == before,
                style_views(kept@) == removed(before.take(i as int), kind, name@),
            decreases self.styles@.len() - i,
        {
            assert(before.take(i + 1).drop_last() =~= before.take(i as int));
            assert(before.take(i + 1).last() == self.styles@[i as int]@);
            if !(self.styles[i].tool == kind && same_str(self.styles[i].name.as_str(), name)) {
                let s = self.styles[i].clone();
                kept.push(s);
                assert(style_views(kept@) =~= removed(before.take(i as int), kind, name@).push(
                    before[i as int],
                ));
            }
            i += 1;
        }
        assert(before.take(i as int) =~= before);
        self.styles = kept;
    }
}

// ---------------------------------------------------------------------------
// The panel
// ---------------------------------------------------------------------------

/// The name that a style is stored under.
pub open spec fn stored_name(typed: Seq<char>) -> Seq<char> {
    crate::text::trim(typed, CharClass::Whitespace)
}

/// The status line after a style was stored: `failure` says why the file could not be
/// written.
pub open spec fn stored_message(
    typed: Seq<char>,
    kind: StyleToolKind,
    failure: Option<Seq<char>>,
) -> Seq<char> {
    match failure {
        Some(e) => "Styles save failed: "@ + e,
        None => "Saved style "@ + crate::editor::preset_panel::debug_text(typed) + " for "@
            + tool_of(kind).text(),
    }
}

impl EditorApp {
    /// Puts the active tool's knobs into the store under the typed name. Gives the
    /// kind if the store is to be written; a tool without knobs has no such button.
    pub fn save_style(&mut self, store: &mut StyleStore, typed: &str) -> (r: Option<StyleToolKind>)
        ensures
            match kind_of(old(self)@.tool) {
                Some(kind) => if crate::editor::preset_panel::is_blank(typed@) {
                    &&& r is None
                    &&& final(self)@ == (AppView {
                        status: "Style name cannot be empty."@,
                        ..old(self)@
                    })
                    &&& final(store)@ == old(store)@
                } else {
                    &&& r == Some(kind)
                    &&& final(self)@ == old(self)@
                    &&& final(store)@ == upserted(
                        old(store)@,
                        StyleView {
                            name: stored_name(typed@),
                            tool: kind,
                            values: captured(old(self)@.knobs, kind),
                        },
                    )
                },
                None => r is None && final(self)@ == old(self)@ && final(store)@ == old(store)@,
            },
    {
        match tool_to_style_kind(self.tool) {
            Some(kind) => {
                if blank(typed) {
                    self.status = "Style name cannot be empty.".to_owned();
                    None
                } else {
                    let chars = to_chars(typed);
                    let name = trim_chars(chars.as_slice(), CharClass::Whitespace);
                    let values = capture_active_style_values(&self.knobs, kind);
                    let style = QuickStyle {
                        name: from_chars(name.as_slice()),
                        tool: kind,
                        values,
                    };
                    assert(style@ =~= StyleView {
                        name: stored_name(typed@),
                        tool: kind,
                        values: captured(self@.knobs, kind),
                    });
                    store.upsert(style);
                    Some(kind)
                }
            },
            None => None,
        }
    }

    /// Says how the writing went. Gives what then stands in the name field: it is
    /// emptied if all went well.
    pub fn style_stored(
        &mut self,
        typed: String,
        kind: StyleToolKind,
        failure: Option<String>,
    ) -> (r: String)
        ensures
            final(self)@ == (AppView {
                status: stored_message(typed@, kind, optional_text(failure)),
                ..old(self)@
            }),
            r@ == if failure is Some {
                typed@
            } else {
                Seq::<char>::empty()
            },
    {
        match failure {
            Some(e) => {
                let mut status = to_chars("Styles save failed: ");
                push_text(&mut status, e.as_str());
                self.status = from_chars(status.as_slice());
                typed
            },
            None => {
                let mut status = to_chars("Saved style ");
                let shown = quoted(typed.as_str());
                push_text(&mut status, shown.as_str());
                push_text(&mut status, " for ");
                push_text(&mut status, kind.label());
                self.status = from_chars(status.as_slice());
                String::new()
            },
        }
    }

    /// Applies a style: sets its knobs and takes up its tool.
    pub fn apply_style(&mut self, store: &StyleStore, kind: StyleToolKind, name: &str)
        ensures
            final(self)@ == match named(store@, kind, name@) {
                Some(s) => AppView {
                    knobs: restyled(old(self)@.knobs, s.values),
                    tool: tool_of(kind),
                    status: "Applied style "@ + crate::editor::preset_panel::debug_text(s.name),
                    ..old(self)@
                },
                None => old(self)@,
            },
    {
        match store.find(kind, name) {
            Some(s) => {
                set_knobs(&mut self.knobs, &s.values);
                if let Some(t) = style_kind_to_tool(kind) {
                    self.tool = t;
                }
                let mut status = to_chars("Applied style ");
                let shown = quoted(s.name.as_str());
                push_text(&mut status, shown.as_str());
                self.status = from_chars(status.as_slice());
            },
            None => {},
        }
    }
}

// ---------------------------------------------------------------------------
// Laws
// ---------------------------------------------------------------------------

/// A style that has been stored is found under its name, the others are as they
/// were, and no name comes to stand twice.
pub proof fn law_upsert_then_find(
    s: Seq<StyleView>,
    style: StyleView,
    kind: StyleToolKind,
    name: Seq<char>,
)
    ensures
        named(upserted(s, style), style.tool, style.name) == Some(style),
        !is_named(style, kind, name) ==> named(upserted(s, style), kind, name) == named(
            s,
            kind,
            name,
        ),
        distinct(s) ==> distinct(upserted(s, style)),
{
    let t = upserted(s, style);
    lemma_named_from(s, style.tool, style.name, 0);
    lemma_named_from(t, style.tool, style.name, 0);
    match named_from(s, style.tool, style.name, 0) {
        Some(i) => {
            assert(is_named(t[i], style.tool, style.name));
            let k = named_from(t, style.tool, style.name, 0)->0;
            if k < i {
                assert(t[k] == s[k]);
            }
        },
        None => {
            assert(is_named(t[s.len() as int], style.tool, style.name));
            let k = named_from(t, style.tool, style.name, 0)->0;
            if k < s.len() {
                assert(t[k] == s[k]);
            }
        },
    }
    if !is_named(style, kind, name) {
        lemma_named_from(s, kind, name, 0);
        lemma_named_from(t, kind, name, 0);
        match (named_from(s, kind, name, 0), named_from(t, kind, name, 0)) {
            (Some(a), Some(b)) => {
                assert(is_named(t[a], kind, name));
                assert(is_named(s[b], kind, name));
            },
            (Some(a), None) => {
                assert(is_named(t[a], kind, name));
            },
            (None, Some(b)) => {
                assert(is_named(s[b], kind, name));
            },
            (None, None) => {},
        }
    }
    if distinct(s) {
        match named_from(s, style.tool, style.name, 0) {
            Some(p) => {
                assert forall|i: int, j: int| 0 <= i < j < t.len() implies !(#[trigger] t[i].tool
                    == #[trigger] t[j].tool && t[i].name == t[j].name) by {
                    assert(s[i].tool == s[i].tool && s[j].tool == s[j].tool);
                    assert(s[p].tool == style.tool && s[p].name == style.name);
                }
            },
            None => {
                assert forall|i: int, j: int| 0 <= i < j < t.len() implies !(#[trigger] t[i].tool
                    == #[trigger] t[j].tool && t[i].name == t[j].name) by {
                    assert(t[i] == s[i]);
                    assert(!is_named(s[i], style.tool, style.name));
                    if j < s.len() {
                        assert(t[j] == s[j]);
                    }
                }
            },
        }
    }
}

/// A style that has been removed is not found, and the others are.
pub proof fn law_remove_then_find(
    s: Seq<StyleView>,
    kind: StyleToolKind,
    name: Seq<char>,
    other: StyleView,
)
    ensures
        named(removed(s, kind, name), kind, name) is None,
        removed(s, kind, name).contains(other) <==> s.contains(other) && !is_named(
            other,
            kind,
            name,
        ),
    decreases s.len(),
{
    let t = removed(s, kind, name);
    lemma_named_from(t, kind, name, 0);
    if s.len() > 0 {
        let front = s.drop_last();
        let head = removed(front, kind, name);
        law_remove_then_find(front, kind, name, other);
        lemma_named_from(head, kind, name, 0);
        assert(s =~= front.push(s.last()));
        if front.contains(other) {
            let k = choose|k: int| 0 <= k < front.len() && front[k] == other;
            assert(s[k] == other);
        }
        assert(s[s.len() - 1] == s.last());
        assert(s.contains(other) <==> front.contains(other) || s.last() == other);
        if is_named(s.last(), kind, name) {
        } else {
            assert(t =~= head.push(s.last()));
            assert(t[head.len() as int] == s.last());
            if head.contains(other) {
                let k = choose|k: int| 0 <= k < head.len() && head[k] == other;
                assert(t[k] == other);
            }
            match named_from(t, kind, name, 0) {
                Some(i) => {
                    assert(i < head.len());
                    assert(t[i] == head[i]);
                },
                None => {},
            }
        }
    }
}

/// Applying a style that was just taken from the knobs changes none of them, and
/// taking the knobs after a style was applied gives that style back.
pub proof fn law_capture_and_apply(k: Knobs, other: Knobs, kind: StyleToolKind)
    ensures
        restyled(k, captured(k, kind)) == k,
        captured(restyled(other, captured(k, kind)), kind) == captured(k, kind),
{
}

/// A kind of style has the name of its tool, and every tool has one but the
/// selection and the banner.
pub proof fn law_kinds_are_named_like_tools(kind: StyleToolKind, tool: Tool)
    ensures
        kind is Arrow <==> tool_of(kind) == Tool::Arrow,
        kind is Text <==> tool_of(kind) == Tool::Text,
        kind is Callout <==> tool_of(kind) == Tool::Callout,
        kind is Rect <==> tool_of(kind) == Tool::Rect,
        kind is Ellipse <==> tool_of(kind) == Tool::Ellipse,
        kind is Step <==> tool_of(kind) == Tool::Step,
        kind is Blur <==> tool_of(kind) == Tool::Blur,
        kind is Magnify <==> tool_of(kind) == Tool::Magnify,
        kind_of(tool) is None <==> tool == Tool::Select || tool == Tool::CaptureInfo,
{
}

/// A style holds the values that its tool draws with, as the panel shows them,
/// and no others: every tool but the blur and the loupe has a colour, what has
/// an outline has its colour, and so on.
pub proof fn law_styles_hold_what_their_tool_uses(k: Knobs, kind: StyleToolKind)
    ensures
        ({
            let v = captured(k, kind);
            let closed_shape = kind is Callout || kind is Rect || kind is Ellipse;
            &&& v.color == (if kind is Blur || kind is Magnify {
                None
            } else {
                Some(k.color)
            })
            &&& v.stroke_color == (if closed_shape || kind is Magnify {
                Some(k.stroke_color)
            } else {
                None
            })
            &&& v.use_fill == (if closed_shape {
                Some(k.use_fill)
            } else {
                None
            })
            &&& v.thickness == (if closed_shape || kind is Arrow || kind is Magnify {
                Some(k.thickness)
            } else {
                None
            })
            &&& v.text_size == (if kind is Text || kind is Callout {
                Some(k.text_size)
            } else {
                None
            })
            &&& v.step_radius == (if kind is Step {
                Some(k.step_radius)
            } else {
                None
            })
            &&& v.magnify_circular == (if kind is Magnify {
                Some(k.magnify_circular)
            } else {
                None
            })
            &&& v.blur_radius == (if kind is Blur {
                Some(k.blur_radius)
            } else {
                None
            })
        }),
{
}

/// A style sets each value that it holds and leaves the others.
pub proof fn law_styles_set_what_they_hold(k: Knobs, v: StyleValues)
    ensures
        ({
            let r = restyled(k, v);
            &&& v.color is Some ==> Some(r.color) == v.color
            &&& v.color is None ==> r.color == k.color
            &&& v.stroke_color is Some ==> Some(r.stroke_color) == v.stroke_color
            &&& v.stroke_color is None ==> r.stroke_color == k.stroke_color
            &&& v.use_fill is Some ==> Some(r.use_fill) == v.use_fill
            &&& v.use_fill is None ==> r.use_fill == k.use_fill
            &&& v.thickness is Some ==> Some(r.thickness) == v.thickness
            &&& v.thickness is None ==> r.thickness == k.thickness
            &&& v.text_size is Some ==> Some(r.text_size) == v.text_size
            &&& v.text_size is None ==> r.text_size == k.text_size
            &&& v.step_radius is Some ==> Some(r.step_radius) == v.step_radius
            &&& v.step_radius is None ==> r.step_radius == k.step_radius
            &&& v.magnify_circular is Some ==> Some(r.magnify_circular) == v.magnify_circular
            &&& v.magnify_circular is None ==> r.magnify_circular == k.magnify_circular
            &&& v.blur_radius is Some ==> Some(r.blur_radius) == v.blur_radius
            &&& v.blur_radius is None ==> r.blur_radius == k.blur_radius
            &&& restyled(r, v) == r
        }),
        restyled(k, no_values()) == k,
{
}

proof fn lemma_of_kind_adds(a: Seq<StyleView>, b: Seq<StyleView>, kind: StyleToolKind)
    ensures
        of_kind(a + b, kind) == of_kind(a, kind) + of_kind(b, kind),
    decreases b.len(),
{
    if b.len() == 0 {
        assert(a + b =~= a);
        assert(of_kind(a, kind) + of_kind(b, kind) =~= of_kind(a, kind));
    } else {
        assert((a + b).drop_last() =~= a + b.drop_last());
        lemma_of_kind_adds(a, b.drop_last(), kind);
        assert(of_kind(a + b, kind) =~= of_kind(a, kind) + of_kind(b, kind));
    }
}

proof fn lemma_removed_adds(
    a: Seq<StyleView>,
    b: Seq<StyleView>,
    kind: StyleToolKind,
    name: Seq<char>,
)
    ensures
        removed(a + b, kind, name) == removed(a, kind, name) + removed(b, kind, name),
    decreases b.len(),
{
    if b.len() == 0 {
        assert(a + b =~= a);
        assert(removed(a, kind, name) + removed(b, kind, name) =~= removed(a, kind, name));
    } else {
        assert((a + b).drop_last() =~= a + b.drop_last());
        lemma_removed_adds(a, b.drop_last(), kind, name);
        assert(removed(a + b, kind, name) =~= removed(a, kind, name) + removed(b, kind, name));
    }
}

/// The styles of a tool are listed in the order in which they are stored, and
/// removing one keeps the order of the others.
pub proof fn law_styles_keep_their_order(
    a: Seq<StyleView>,
    s: StyleView,
    b: Seq<StyleView>,
    kind: StyleToolKind,
    name: Seq<char>,
)
    ensures
        of_kind(a + b, kind) == of_kind(a, kind) + of_kind(b, kind),
        of_kind(seq![s], kind) == (if s.tool == kind {
            seq![s]
        } else {
            Seq::empty()
        }),
        removed(a + b, kind, name) == removed(a, kind, name) + removed(b, kind, name),
        removed(seq![s], kind, name) == (if s.tool == kind && s.name == name {
            Seq::empty()
        } else {
            seq![s]
        }),
        of_kind(Seq::empty(), kind).len() == 0 && removed(Seq::empty(), kind, name).len() == 0,
{
    lemma_of_kind_adds(a, b, kind);
    lemma_removed_adds(a, b, kind, name);
    assert(seq![s].drop_last() =~= Seq::<StyleView>::empty());
    assert(of_kind(seq![s].drop_last(), kind) =~= Seq::<StyleView>::empty());
    assert(removed(seq![s].drop_last(), kind, name) =~= Seq::<StyleView>::empty());
    assert(of_kind(seq![s], kind) =~= (if s.tool == kind {
        seq![s]
    } else {
        Seq::empty()
    }));
    assert(removed(seq![s], kind, name) =~= (if s.tool == kind && s.name == name {
        Seq::empty()
    } else {
        seq![s]
    }));
}

/// A style that is stored again takes its old place, one with a new name comes
/// last, and no other is touched.
pub proof fn law_stored_styles_keep_their_place(s: Seq<StyleView>, style: StyleView, i: int)
    requires
        0 <= i < s.len(),
    ensures
        !(s[i].tool == style.tool && s[i].name == style.name) ==> upserted(s, style)[i] == s[i],
        s[i].tool == style.tool && s[i].name == style.name ==> upserted(s, style).len() == s.len(),
        s[i].tool == style.tool && s[i].name == style.name && (forall|k: int|
            0 <= k < i ==> !((#[trigger] s[k]).tool == style.tool && s[k].name == style.name))
            ==> upserted(s, style)[i] == style,
        (forall|k: int|
            0 <= k < s.len() ==> !((#[trigger] s[k]).tool == style.tool && s[k].name == style.name))
            ==> upserted(s, style) == s.push(style),
{
    lemma_named_from(s, style.tool, style.name, 0);
}

} // verus!
