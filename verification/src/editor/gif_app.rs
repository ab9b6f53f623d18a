//! The editor of recordings: which frames are kept, how they are played, and what
//! is exported.
use vstd::prelude::*;
use crate::history::Kind;
use crate::settings::ui::number_input;
use crate::text::{decimal_chars, from_chars, optional_text, push_chars, push_text, to_chars};

verus! {

/// The box that thumbnails are scaled into.
pub const THUMB_W: u32 = 156;

pub const THUMB_H: u32 = 88;

// ---------------------------------------------------------------------------
// State
// ---------------------------------------------------------------------------

/// A frame of the recording.
#[derive(Debug)]
pub struct EditableFrame {
    pub path: String,
    pub delay_ms: u32,
    pub deleted: bool,
}

/// A frame as plain values.
#[verifier::ext_equal]
pub struct FrameEntry {
    pub path: Seq<char>,
    pub delay_ms: u32,
    pub deleted: bool,
}

impl View for EditableFrame {
    type V = FrameEntry;

    open spec fn view(&self) -> FrameEntry {
        FrameEntry { path: self.path@, delay_ms: self.delay_ms, deleted: self.deleted }
    }
}

/// The views of frames.
pub open spec fn entries(v: Seq<EditableFrame>) -> Seq<FrameEntry> {
    v.map_values(|f: EditableFrame| f@)
}

/// How an export is getting on.
#[derive(Debug)]
pub enum ExportStatus {
    Idle,
    Encoding { done: usize, total: usize },
    Done(String),
    Failed(String),
}

/// The state of an export as plain values.
#[verifier::ext_equal]
pub enum StatusView {
    Idle,
    Encoding { done: usize, total: usize },
    Done(Seq<char>),
    Failed(Seq<char>),
}

impl View for ExportStatus {
    type V = StatusView;

    open spec fn view(&self) -> StatusView {
        match *self {
            ExportStatus::Idle => StatusView::Idle,
            ExportStatus::Encoding { done, total } => StatusView::Encoding { done, total },
            ExportStatus::Done(path) => StatusView::Done(path@),
            ExportStatus::Failed(e) => StatusView::Failed(e@),
        }
    }
}

/// The editor.
#[derive(Debug)]
pub struct GifEditor {
    pub frames: Vec<EditableFrame>,
    /// The frame that is shown.
    pub current: usize,
    pub fps: u32,
    /// 0 means for ever.
    pub loop_count: u16,
    pub trim_in: Option<usize>,
    pub trim_out: Option<usize>,
    pub playing: bool,
    pub copy_on_export: bool,
    pub export_status: ExportStatus,
    /// The data URI of each frame, as far as they are ready.
    pub decoded: Vec<Option<String>>,
}

/// The editor as plain values.
#[verifier::ext_equal]
pub struct EditorView {
    pub frames: Seq<FrameEntry>,
    pub current: usize,
    pub fps: u32,
    pub loop_count: u16,
    pub trim_in: Option<usize>,
    pub trim_out: Option<usize>,
    pub playing: bool,
    pub copy_on_export: bool,
    pub export_status: StatusView,
    pub decoded: Seq<Option<Seq<char>>>,
}

/// The views of data URIs.
pub open spec fn uris(v: Seq<Option<String>>) -> Seq<Option<Seq<char>>> {
    v.map_values(|t: Option<String>| optional_text(t))
}

impl View for GifEditor {
    type V = EditorView;

    open spec fn view(&self) -> EditorView {
        EditorView {
            frames: entries(self.frames@),
            current: self.current,
            fps: self.fps,
            loop_count: self.loop_count,
            trim_in: self.trim_in,
            trim_out: self.trim_out,
            playing: self.playing,
            copy_on_export: self.copy_on_export,
            export_status: self.export_status@,
            decoded: uris(self.decoded@),
        }
    }
}

impl EditorView {
    /// The shown frame exists if any does, each frame has a place for its data URI,
    /// and the speed is one that can be set.
    pub open spec fn wf(self) -> bool {
        &&& self.current < self.frames.len() || (self.current == 0 && self.frames.len() == 0)
        &&& self.decoded.len() == self.frames.len() <= usize::MAX
        &&& 5 <= self.fps <= 60
    }
}

/// A recording as it lies on disk: the path and the delay of each frame.
#[derive(Debug)]
pub struct Recording {
    pub frames: Vec<(String, u32)>,
    pub fps_target: u32,
    pub loop_count: u16,
}

/// The frames of a recording, none deleted.
pub open spec fn loaded(v: Seq<(String, u32)>) -> Seq<FrameEntry> {
    v.map_values(|f: (String, u32)| FrameEntry { path: f.0@, delay_ms: f.1, deleted: false })
}

/// A speed within the limits.
pub open spec fn bounded_fps(fps: int) -> int {
    crate::settings::ui::bounded(fps, 5, 60)
}

impl GifEditor {
    /// The editor of a recording.
    pub fn new(recording: Recording, copy_on_export: bool) -> (r: GifEditor)
        ensures
            r@ == (EditorView {
                frames: loaded(recording.frames@),
                current: 0,
                fps: bounded_fps(recording.fps_target as int) as u32,
                loop_count: recording.loop_count,
                trim_in: None,
                trim_out: None,
                playing: false,
                copy_on_export,
                export_status: StatusView::Idle,
                decoded: Seq::new(recording.frames@.len(), |i: int| None::<Seq<char>>),
            }),
            r@.wf(),
    {
        let mut frames: Vec<EditableFrame> = Vec::new();
        let mut decoded: Vec<Option<String>> = Vec::new();
        let mut i: usize = 0;
        while i < recording.frames.len()
            invariant
                i <= recording.frames@.len(),
                entries(frames@) == loaded(recording.frames@).take(i as int),
                uris(decoded@) == Seq::new(i as nat, |k: int| None::<Seq<char>>),
            decreases recording.frames@.len() - i,
        {
            let ghost before = entries(frames@);
            let ghost slots = uris(decoded@);
            let frame = EditableFrame {
                path: recording.frames[i].0.clone(),
                delay_ms: recording.frames[i].1,
                deleted: false,
            };
            frames.push(frame);
            decoded.push(None);
            assert(entries(frames@) =~= before.push(frame@));
            assert(entries(frames@) =~= loaded(recording.frames@).take(i + 1));
            assert(uris(decoded@) =~= slots.push(None));
            assert(uris(decoded@) =~= Seq::new((i + 1) as nat, |k: int| None::<Seq<char>>));
            i += 1;
        }
        assert(loaded(recording.frames@).take(i as int) =~= loaded(recording.frames@));
        GifEditor {
            frames,
            current: 0,
            fps: crate::settings::ui::bound(recording.fps_target, 5, 60),
            loop_count: recording.loop_count,
            trim_in: None,
            trim_out: None,
            playing: false,
            copy_on_export,
            export_status: ExportStatus::Idle,
            decoded,
        }
    }

    /// Takes the data URI of a frame.
    pub fn frame_decoded(&mut self, i: usize, uri: Option<String>)
        ensures
            final(self)@ == (EditorView {
                decoded: if i < old(self)@.decoded.len() && uri is Some {
                    old(self)@.decoded.update(i as int, optional_text(uri))
                } else {
                    old(self)@.decoded
                },
                ..old(self)@
            }),
    {
        let ghost before = self@.decoded;
        let ghost view = optional_text(uri);
        if i < self.decoded.len() && uri.is_some() {
            self.decoded.set(i, uri);
            assert(self@.decoded =~= before.update(i as int, view));
        }
    }
}

/// The data URI of a frame, scaled into its box, from the bytes of its PNG file.
pub fn build_thumb_uri(bytes: &Vec<u8>) -> (r: Option<String>)
    ensures
        optional_text(r) == crate::codec::file_thumb(bytes@, false, THUMB_W, THUMB_H),
{
    crate::codec::thumb_of_file(bytes, Kind::Png, THUMB_W, THUMB_H)
}

// ---------------------------------------------------------------------------
// Counts
// ---------------------------------------------------------------------------

/// How many frames are kept.
pub open spec fn active_count(s: Seq<FrameEntry>) -> nat
    decreases s.len(),
{
    if s.len() == 0 {
        0
    } else {
        active_count(s.drop_last()) + if s.last().deleted {
            0nat
        } else {
            1nat
        }
    }
}

/// How long the kept frames were shown, in milliseconds.
pub open spec fn active_ms(s: Seq<FrameEntry>) -> nat
    decreases s.len(),
{
    if s.len() == 0 {
        0
    } else {
        active_ms(s.drop_last()) + if s.last().deleted {
            0nat
        } else {
            s.last().delay_ms as nat
        }
    }
}

impl GifEditor {
    /// How many frames are kept.
    pub fn active(&self) -> (r: usize)
        ensures
            r == active_count(self@.frames),
            r <= self@.frames.len(),
    {
        let ghost all = self@.frames;
        let mut n: usize = 0;
        let mut i: usize = 0;
        while i < self.frames.len()
            invariant
                i <= self.frames@.len(),
                all == entries(self.frames@),
                n == active_count(all.take(i as int)),
                n <= i,
            decreases self.frames@.len() - i,
        {
            assert(all.take(i + 1).drop_last() =~= all.take(i as int));
            if !self.frames[i].deleted {
                n += 1;
            }
            i += 1;
        }
        assert(all.take(i as int) =~= all);
        n
    }

    /// How long the kept frames were shown, in milliseconds.
    pub fn total_ms(&self) -> (r: u64)
        requires
            self@.frames.len() * u32::MAX <= u64::MAX,
        ensures
            r == active_ms(self@.frames),
    {
        let ghost all = self@.frames;
        let mut n: u64 = 0;
        let mut i: usize = 0;
        while i < self.frames.len()
            invariant
                i <= self.frames@.len(),
                self.frames@.len() * u32::MAX <= u64::MAX,
                all == entries(self.frames@),
                n == active_ms(all.take(i as int)),
                n <= i * u32::MAX,
            decreases self.frames@.len() - i,
        {
            assert(all.take(i + 1).drop_last() =~= all.take(i as int));
            if !self.frames[i].deleted {
                n += self.frames[i].delay_ms as u64;
            }
            i += 1;
        }
        assert(all.take(i as int) =~= all);
        n
    }

    /// How many frames are deleted.
    pub fn deleted(&self) -> (r: usize)
        ensures
            r == self@.frames.len() - active_count(self@.frames),
    {
        self.frames.len() - self.active()
    }

    /// The line below the file name; `seconds` is the length with one digit behind
    /// the point.
    pub fn title_line(&self, seconds: &str) -> (r: String)
        ensures
            r@ == crate::text::decimal(self@.frames.len()) + " frames \u{2022} "@
                + crate::text::decimal(active_count(self@.frames)) + " active \u{2022} "@
                + seconds@ + "s"@,
    {
        let mut out = decimal_chars(self.frames.len() as u64);
        push_text(&mut out, " frames \u{2022} ");
        let active = decimal_chars(self.active() as u64);
        push_chars(&mut out, active.as_slice());
        push_text(&mut out, " active \u{2022} ");
        push_text(&mut out, seconds);
        push_text(&mut out, "s");
        from_chars(out.as_slice())
    }
}

// ---------------------------------------------------------------------------
// The inspector
// ---------------------------------------------------------------------------

/// The frames that stay: those between the marks, in whichever order these were
/// set.
pub open spec fn selected_range(trim_in: Option<usize>, trim_out: Option<usize>) -> Option<
    (usize, usize),
> {
    match (trim_in, trim_out) {
        (Some(a), Some(b)) => if a <= b {
            Some((a, b))
        } else {
            Some((b, a))
        },
        _ => None,
    }
}

/// The frames with all deleted that lie outside the range.
pub open spec fn trimmed(s: Seq<FrameEntry>, lo: int, hi: int) -> Seq<FrameEntry> {
    s.map(
        |i: int, f: FrameEntry|
            FrameEntry { deleted: f.deleted || i < lo || i > hi, ..f },
    )
}

/// The frames with one of them deleted, or brought back.
pub open spec fn toggled(s: Seq<FrameEntry>, i: int) -> Seq<FrameEntry> {
    if 0 <= i < s.len() {
        s.update(i, FrameEntry { deleted: !s[i].deleted, ..s[i] })
    } else {
        s
    }
}

/// The number of a mark, or a dash.
pub open spec fn mark_text(mark: Option<usize>) -> Seq<char> {
    match mark {
        Some(i) => crate::text::decimal(i as nat),
        None => "\u{2014}"@,
    }
}

fn mark_label(mark: Option<usize>) -> (r: Vec<char>)
    ensures
        r@ == mark_text(mark),
{
    match mark {
        Some(i) => decimal_chars(i as u64),
        None => to_chars("\u{2014}"),
    }
}

impl GifEditor {
    /// The field of the speed: a number is brought within the limits, anything else
    /// is passed over.
    pub fn type_fps(&mut self, typed: &str)
        ensures
            final(self)@ == (EditorView {
                fps: match crate::settings::ui::typed_number(typed@) {
                    Some(n) => if n <= u32::MAX {
                        bounded_fps(n as int) as u32
                    } else {
                        old(self)@.fps
                    },
                    None => old(self)@.fps,
                },
                ..old(self)@
            }),
            old(self)@.wf() ==> final(self)@.wf(),
    {
        self.fps = number_input(self.fps, typed, u32::MAX, 5, 60);
    }

    /// The field of the loop count.
    pub fn type_loop_count(&mut self, typed: &str)
        ensures
            final(self)@ == (EditorView {
                loop_count: match crate::settings::ui::typed_number(typed@) {
                    Some(n) => if n <= u16::MAX {
                        n as u16
                    } else {
                        old(self)@.loop_count
                    },
                    None => old(self)@.loop_count,
                },
                ..old(self)@
            }),
    {
        let n = number_input(self.loop_count as u32, typed, 65535, 0, 65535);
        self.loop_count = n as u16;
    }

    /// Puts the first mark at the shown frame.
    pub fn set_in(&mut self)
        ensures
            final(self)@ == (EditorView { trim_in: Some(old(self)@.current), ..old(self)@ }),
    {
        self.trim_in = Some(self.current);
    }

    /// Puts the second mark at the shown frame.
    pub fn set_out(&mut self)
        ensures
            final(self)@ == (EditorView { trim_out: Some(old(self)@.current), ..old(self)@ }),
    {
        self.trim_out = Some(self.current);
    }

    /// Takes the marks away.
    pub fn clear_marks(&mut self)
        ensures
            final(self)@ == (EditorView { trim_in: None, trim_out: None, ..old(self)@ }),
    {
        self.trim_in = None;
        self.trim_out = None;
    }

    /// The line that shows the marks.
    pub fn marks_line(&self) -> (r: String)
        ensures
            r@ == "in: "@ + mark_text(self@.trim_in) + "   out: "@ + mark_text(self@.trim_out),
    {
        let mut out = to_chars("in: ");
        let a = mark_label(self.trim_in);
        push_chars(&mut out, a.as_slice());
        push_text(&mut out, "   out: ");
        let b = mark_label(self.trim_out);
        push_chars(&mut out, b.as_slice());
        from_chars(out.as_slice())
    }

    /// Deletes all frames outside the marks, if both are set.
    pub fn trim_to_selection(&mut self)
        ensures
            final(self)@ == (EditorView {
                frames: match selected_range(old(self)@.trim_in, old(self)@.trim_out) {
                    Some((lo, hi)) => trimmed(old(self)@.frames, lo as int, hi as int),
                    None => old(self)@.frames,
                },
                ..old(self)@
            }),
    {
        let range = match (self.trim_in, self.trim_out) {
            (Some(a), Some(b)) => if a <= b {
                Some((a, b))
            } else {
                Some((b, a))
            },
            _ => None,
        };
        if let Some((lo, hi)) = range {
            let ghost before = self@;
            let ghost all = self@.frames;
            let mut i: usize = 0;
            while i < self.frames.len()
                invariant
                    i <= self.frames@.len(),
                    self.frames@.len() == all.len(),
                    all == before.frames,
                    self@ == (EditorView { frames: self@.frames, ..before }),
                    forall|k: int|
                        0 <= k < i ==> #[trigger] self@.frames[k] == trimmed(
                            all,
                            lo as int,
                            hi as int,
                        )[k],
                    forall|k: int| i <= k < all.len() ==> #[trigger] self@.frames[k] == all[k],
                decreases self.frames@.len() - i,
            {
                let ghost mid = self@.frames;
                assert(mid[i as int] == self.frames@[i as int]@);
                if i < lo || i > hi {
                    let frame = EditableFrame {
                        path: self.frames[i].path.clone(),
                        delay_ms: self.frames[i].delay_ms,
                        deleted: true,
                    };
                    let ghost view = frame@;
                    self.frames.set(i, frame);
                    assert(self@.frames =~= mid.update(i as int, view));
                }
                i += 1;
            }
            assert(self@.frames =~= trimmed(all, lo as int, hi as int));
        }
    }
}

// ---------------------------------------------------------------------------
// The timeline
// ---------------------------------------------------------------------------

/// The first kept frame among the `left` ones from `at` on, where the first frame
/// follows the last.
pub open spec fn next_active(s: Seq<FrameEntry>, at: int, left: nat) -> Option<int>
    decreases left,
{
    if left == 0 || s.len() == 0 {
        None
    } else if !s[at % s.len() as int].deleted {
        Some(at % s.len() as int)
    } else {
        next_active(s, at + 1, (left - 1) as nat)
    }
}

/// The frame that playback shows next: the next one that is kept, or the same if none
/// is.
pub open spec fn advanced(s: EditorView) -> EditorView {
    match next_active(s.frames, s.current + 1, s.frames.len()) {
        Some(i) => EditorView { current: i as usize, ..s },
        None => s,
    }
}

/// How long playback waits at this speed, in milliseconds.
pub open spec fn wait_ms(fps: u32) -> int {
    let d = if fps == 0 {
        1000
    } else {
        1000int / (fps as int)
    };
    if d < 10 {
        10
    } else {
        d
    }
}

/// The style classes of a frame in the strip.
pub open spec fn frame_classes(s: EditorView, i: usize) -> Seq<char> {
    "frame"@ + (if i == s.current {
        " current"@
    } else {
        Seq::empty()
    }) + (if i < s.frames.len() && s.frames[i as int].deleted {
        " deleted"@
    } else {
        Seq::empty()
    }) + (if s.trim_in == Some(i) {
        " in-mark"@
    } else {
        Seq::empty()
    }) + (if s.trim_out == Some(i) {
        " out-mark"@
    } else {
        Seq::empty()
    })
}

impl GifEditor {
    /// The button that plays and pauses. Tells whether playback is to begin.
    pub fn play_clicked(&mut self) -> (r: bool)
        ensures
            final(self)@ == (EditorView { playing: !old(self)@.playing, ..old(self)@ }),
            r == (!old(self)@.playing && old(self)@.frames.len() > 0),
    {
        let was_playing = self.playing;
        self.playing = !was_playing;
        !was_playing && self.frames.len() > 0
    }

    /// One step of playback: what to do when the wait is over, or before it. `None`
    /// means that playback ends, a number that it waits so many milliseconds.
    pub fn playback_wait(&self, alive: bool) -> (r: Option<u64>)
        ensures
            match r {
                Some(ms) => alive && self@.playing && ms == wait_ms(self@.fps),
                None => !alive || !self@.playing,
            },
    {
        if !alive || !self.playing {
            return None;
        }
        let fps: u32 = if self.fps == 0 {
            1
        } else {
            self.fps
        };
        let d: u32 = 1000 / fps;
        Some(
            if d < 10 {
                10
            } else {
                d as u64
            },
        )
    }

    /// The wait is over: shows the next frame, unless playback has ended. Tells
    /// whether it goes on.
    pub fn playback_tick(&mut self, alive: bool) -> (r: bool)
        requires
            old(self)@.wf(),
        ensures
            r == (alive && old(self)@.playing),
            final(self)@ == if r {
                advanced(old(self)@)
            } else {
                old(self)@
            },
            final(self)@.wf(),
    {
        if !alive || !self.playing {
            return false;
        }
        self.advance_to_next_active();
        true
    }

    /// Shows the next frame that is kept. The first frame follows the last. If all
    /// are deleted, nothing changes.
    pub fn advance_to_next_active(&mut self)
        requires
            old(self)@.wf(),
        ensures
            final(self)@ == advanced(old(self)@),
            final(self)@.wf(),
    {
        let len = self.frames.len();
        if len == 0 {
            return;
        }
        let ghost all = self@.frames;
        let start: usize = self.current + 1;
        let mut next: usize = if start == len {
            0
        } else {
            start
        };
        proof {
            vstd::arithmetic::div_mod::lemma_mod_self_0(len as int);
            if start < len {
                vstd::arithmetic::div_mod::lemma_small_mod(start as nat, len as nat);
            }
        }
        let mut tried: usize = 0;
        while tried < len
            invariant
                self@ == old(self)@,
                old(self)@.wf(),
                all == self@.frames,
                len == self.frames@.len(),
                len > 0,
                tried <= len,
                next < len,
                start == self.current + 1,
                next == (start + tried) % len as int,
                next_active(all, start as int, len as nat) == next_active(
                    all,
                    start + tried,
                    (len - tried) as nat,
                ),
            decreases len - tried,
        {
            assert(all[next as int] == self.frames@[next as int]@);
            if !self.frames[next].deleted {
                self.current = next;
                return;
            }
            proof {
                let a = start + tried;
                vstd::arithmetic::div_mod::lemma_add_mod_noop(a, 1, len as int);
                if next + 1 < len {
                    vstd::arithmetic::div_mod::lemma_small_mod((next + 1) as nat, len as nat);
                } else {
                    vstd::arithmetic::div_mod::lemma_mod_self_0(len as int);
                }
                if len > 1 {
                    vstd::arithmetic::div_mod::lemma_small_mod(1, len as nat);
                }
                vstd::arithmetic::div_mod::lemma_add_mod_noop_right(1, a, len as int);
            }
            next = if next + 1 == len {
                0
            } else {
                next + 1
            };
            tried += 1;
        }
    }

    /// The button that goes to the first frame.
    pub fn go_first(&mut self)
        ensures
            final(self)@ == (EditorView { current: 0, ..old(self)@ }),
            old(self)@.wf() ==> final(self)@.wf(),
    {
        self.current = 0;
    }

    /// The button that goes to the last frame.
    pub fn go_last(&mut self)
        ensures
            final(self)@ == (EditorView {
                current: if old(self)@.frames.len() == 0 {
                    0
                } else {
                    (old(self)@.frames.len() - 1) as usize
                },
                ..old(self)@
            }),
            old(self)@.wf() ==> final(self)@.wf(),
    {
        if self.frames.len() == 0 {
            self.current = 0;
        } else {
            self.current = self.frames.len() - 1;
        }
    }

    /// A click on a frame of the strip shows it.
    pub fn scrub(&mut self, i: usize)
        requires
            i < old(self)@.frames.len(),
        ensures
            final(self)@ == (EditorView { current: i, ..old(self)@ }),
            old(self)@.wf() ==> final(self)@.wf(),
    {
        self.current = i;
    }

    /// A right click on a frame of the strip deletes it, or brings it back.
    pub fn toggle_deleted(&mut self, i: usize)
        ensures
            final(self)@ == (EditorView {
                frames: toggled(old(self)@.frames, i as int),
                ..old(self)@
            }),
    {
        if i < self.frames.len() {
            let ghost before = self@.frames;
            let frame = EditableFrame {
                path: self.frames[i].path.clone(),
                delay_ms: self.frames[i].delay_ms,
                deleted: !self.frames[i].deleted,
            };
            let ghost view = frame@;
            self.frames.set(i, frame);
            assert(self@.frames =~= before.update(i as int, view));
        }
    }

    /// The style classes of a frame in the strip.
    pub fn classes(&self, i: usize) -> (r: String)
        ensures
            r@ == frame_classes(self@, i),
    {
        let mut out = to_chars("frame");
        if i == self.current {
            push_text(&mut out, " current");
        }
        if i < self.frames.len() && self.frames[i].deleted {
            push_text(&mut out, " deleted");
        }
        if let Some(m) = self.trim_in {
            if m == i {
                push_text(&mut out, " in-mark");
            }
        }
        if let Some(m) = self.trim_out {
            if m == i {
                push_text(&mut out, " out-mark");
            }
        }
        assert(out@ =~= frame_classes(self@, i));
        from_chars(out.as_slice())
    }

    /// The line beside the buttons.
    pub fn position_line(&self) -> (r: String)
        requires
            self@.wf(),
        ensures
            r@ == "Frame "@ + crate::text::decimal((self@.current + 1) as nat) + " / "@
                + crate::text::decimal(self@.frames.len()),
    {
        let mut out = to_chars("Frame ");
        let a = decimal_chars(self.current as u64 + 1);
        push_chars(&mut out, a.as_slice());
        push_text(&mut out, " / ");
        let b = decimal_chars(self.frames.len() as u64);
        push_chars(&mut out, b.as_slice());
        from_chars(out.as_slice())
    }
}

/// What the preview shows.
#[derive(Debug)]
pub enum Preview {
    Picture(String),
    NoFrames,
    Loading,
}

impl GifEditor {
    /// What the preview shows.
    pub fn preview(&self) -> (r: Preview)
        ensures
            match r {
                Preview::Picture(uri) => self@.current < self@.decoded.len()
                    && self@.decoded[self@.current as int] == Some(uri@),
                Preview::NoFrames => !(self@.current < self@.decoded.len()
                    && self@.decoded[self@.current as int] is Some) && self@.frames.len() == 0,
                Preview::Loading => !(self@.current < self@.decoded.len()
                    && self@.decoded[self@.current as int] is Some) && self@.frames.len() > 0,
            },
    {
        if self.current < self.decoded.len() {
            assert(self@.decoded[self.current as int] == optional_text(
                self.decoded@[self.current as int],
            ));
            if let Some(uri) = &self.decoded[self.current] {
                return Preview::Picture(uri.clone());
            }
        }
        if self.frames.len() == 0 {
            Preview::NoFrames
        } else {
            Preview::Loading
        }
    }
}

// ---------------------------------------------------------------------------
// Export
// ---------------------------------------------------------------------------

/// A frame that is to be encoded.
#[derive(Debug)]
pub struct FrameInput {
    pub png_path: String,
    pub delay_ms: u32,
}

/// The views of frames to be encoded.
pub open spec fn input_views(v: Seq<FrameInput>) -> Seq<(Seq<char>, u32)> {
    v.map_values(|f: FrameInput| (f.png_path@, f.delay_ms))
}

/// The kept frames, each shown for so long.
pub open spec fn exported(s: Seq<FrameEntry>, delay_ms: u32) -> Seq<(Seq<char>, u32)>
    decreases s.len(),
{
    if s.len() == 0 {
        Seq::empty()
    } else {
        let head = exported(s.drop_last(), delay_ms);
        if s.last().deleted {
            head
        } else {
            head.push((s.last().path, delay_ms))
        }
    }
}

/// How long each frame of an export is shown.
pub open spec fn export_delay(fps: u32) -> int {
    wait_ms(bounded_fps(fps as int) as u32)
}

/// What an export is to do.
#[derive(Debug)]
pub struct ExportJob {
    pub frames: Vec<FrameInput>,
    pub loop_count: u16,
    pub copy_to_clipboard: bool,
}

impl GifEditor {
    /// The button that exports: gives what is to be encoded, unless no frame is kept.
    pub fn start_export(&mut self) -> (r: Option<ExportJob>)
        ensures
            match r {
                Some(job) => {
                    &&& input_views(job.frames@) == exported(
                        old(self)@.frames,
                        export_delay(old(self)@.fps) as u32,
                    )
                    &&& job.frames@.len() > 0
                    &&& job.loop_count == old(self)@.loop_count
                    &&& job.copy_to_clipboard == old(self)@.copy_on_export
                    &&& final(self)@ == (EditorView {
                        export_status: StatusView::Encoding {
                            done: 0,
                            total: job.frames@.len() as usize,
                        },
                        ..old(self)@
                    })
                },
                None => {
                    &&& exported(old(self)@.frames, export_delay(old(self)@.fps) as u32).len() == 0
                    &&& final(self)@ == (EditorView {
                        export_status: StatusView::Failed(
                            "Nothing to export \u{2014} all frames are deleted."@,
                        ),
                        ..old(self)@
                    })
                },
            },
    {
        let fps = crate::settings::ui::bound(self.fps, 5, 60);
        let d: u32 = 1000 / fps;
        let delay_ms: u32 = if d < 10 {
            10
        } else {
            d
        };
        assert(delay_ms == export_delay(self.fps));
        let ghost all = self@.frames;
        let mut active: Vec<FrameInput> = Vec::new();
        let mut i: usize = 0;
        while i < self.frames.len()
            invariant
                i <= self.frames@.len(),
                self@ == old(self)@,
                all == entries(self.frames@),
                input_views(active@) == exported(all.take(i as int), delay_ms),
            decreases self.frames@.len() - i,
        {
            assert(all.take(i + 1).drop_last() =~= all.take(i as int));
            assert(all.take(i + 1).last() == self.frames@[i as int]@);
            if !self.frames[i].deleted {
                let ghost before = input_views(active@);
                active.push(FrameInput { png_path: self.frames[i].path.clone(), delay_ms });
                assert(input_views(active@) =~= before.push((all[i as int].path, delay_ms)));
            }
            i += 1;
        }
        assert(all.take(i as int) =~= all);
        let total = active.len();
        assert(input_views(active@).len() == total);
        if total == 0 {
            self.export_status = ExportStatus::Failed(
                "Nothing to export \u{2014} all frames are deleted.".to_owned(),
            );
            return None;
        }
        self.export_status = ExportStatus::Encoding { done: 0, total };
        Some(
            ExportJob {
                frames: active,
                loop_count: self.loop_count,
                copy_to_clipboard: self.copy_on_export,
            },
        )
    }

    /// News from the encoder. Tells whether more can come.
    pub fn export_progress(&mut self, news: ExportProgress) -> (r: bool)
        ensures
            final(self)@ == (EditorView { export_status: news@, ..old(self)@ }),
            r == (news is Tick),
    {
        match news {
            ExportProgress::Tick { done, total } => {
                self.export_status = ExportStatus::Encoding { done, total };
                true
            },
            ExportProgress::Done(path) => {
                self.export_status = ExportStatus::Done(path);
                false
            },
            ExportProgress::Failed(e) => {
                self.export_status = ExportStatus::Failed(e);
                false
            },
        }
    }

    /// Whether an export is running, so that the button is disabled.
    pub fn exporting(&self) -> (r: bool)
        ensures
            r == (self@.export_status is Encoding),
    {
        match self.export_status {
            ExportStatus::Encoding { .. } => true,
            _ => false,
        }
    }

    /// The button below the message of a failed export.
    pub fn dismiss(&mut self)
        ensures
            final(self)@ == (EditorView { export_status: StatusView::Idle, ..old(self)@ }),
    {
        self.export_status = ExportStatus::Idle;
    }
}

/// News from the encoder.
#[derive(Debug)]
pub enum ExportProgress {
    Tick { done: usize, total: usize },
    Done(String),
    Failed(String),
}

impl View for ExportProgress {
    type V = StatusView;

    open spec fn view(&self) -> StatusView {
        match *self {
            ExportProgress::Tick { done, total } => StatusView::Encoding { done, total },
            ExportProgress::Done(path) => StatusView::Done(path@),
            ExportProgress::Failed(e) => StatusView::Failed(e@),
        }
    }
}

/// How far an export is, in percent.
pub open spec fn percent_of(done: int, total: int) -> int {
    if total == 0 {
        0
    } else if done * 100 / total > 100 {
        100
    } else {
        done * 100 / total
    }
}

/// How far an export is, in percent.
pub fn percent(done: usize, total: usize) -> (r: usize)
    requires
        done * 100 <= usize::MAX,
    ensures
        r == percent_of(done as int, total as int),
{
    if total == 0 {
        return 0;
    }
    let p: usize = done * 100 / total;
    if p > 100 {
        100
    } else {
        p
    }
}

/// What remains to be done when the encoder has ended.
#[derive(Debug, Clone, Copy, PartialEq, Eq, Structural)]
pub enum Cleanup {
    /// Put the file on the clipboard.
    CopyFile,
    /// Remove the directory of the frames.
    RemoveSpool,
    /// Remove the description of the recording.
    RemoveSidecar,
}

/// What remains to be done: after a failure the recording stays, so that it can be
/// exported again.
pub open spec fn cleanup_of(encoded: bool, copy: bool) -> Seq<Cleanup> {
    if !encoded {
        Seq::empty()
    } else if copy {
        seq![Cleanup::CopyFile, Cleanup::RemoveSpool, Cleanup::RemoveSidecar]
    } else {
        seq![Cleanup::RemoveSpool, Cleanup::RemoveSidecar]
    }
}

/// What remains to be done when the encoder has ended.
pub fn finish_export(encoded: bool, copy: bool) -> (r: Vec<Cleanup>)
    ensures
        r@ == cleanup_of(encoded, copy),
{
    let mut out: Vec<Cleanup> = Vec::new();
    if encoded {
        if copy {
            out.push(Cleanup::CopyFile);
        }
        out.push(Cleanup::RemoveSpool);
        out.push(Cleanup::RemoveSidecar);
    }
    assert(out@ =~= cleanup_of(encoded, copy));
    out
}

// ---------------------------------------------------------------------------
// Laws
// ---------------------------------------------------------------------------

proof fn lemma_next_active(s: Seq<FrameEntry>, at: int, left: nat)
    requires
        at >= 0,
    ensures
        match next_active(s, at, left) {
            Some(i) => {
                &&& 0 <= i < s.len()
                &&& !s[i].deleted
                &&& exists|k: int|
                    0 <= k < left && i == (#[trigger] (at + k)) % (s.len() as int) && forall|j: int|
                        0 <= j < k ==> s[#[trigger] ((at + j) % (s.len() as int))].deleted
            },
            None => s.len() > 0 ==> forall|k: int|
                0 <= k < left ==> s[#[trigger] ((at + k) % (s.len() as int))].deleted,
        },
    decreases left,
{
    if left > 0 && s.len() > 0 {
        vstd::arithmetic::div_mod::lemma_mod_bound(at, s.len() as int);
        if !s[at % s.len() as int].deleted {
            assert(at + 0 == at);
            let k = 0int;
            assert(0 <= k < left && at % s.len() as int == (at + k) % (s.len() as int));
        } else {
            lemma_next_active(s, at + 1, (left - 1) as nat);
            match next_active(s, at + 1, (left - 1) as nat) {
                Some(i) => {
                    let k = choose|k: int|
                        0 <= k < left - 1 && i == (#[trigger] (at + 1 + k)) % (s.len() as int)
                            && forall|j: int|
                            0 <= j < k ==> s[#[trigger] ((at + 1 + j) % (s.len() as int))].deleted;
                    let k2 = k + 1;
                    assert(at + k2 == at + 1 + k);
                    assert forall|j: int| 0 <= j < k2 implies s[#[trigger] ((at + j) % (
                    s.len() as int))].deleted by {
                        if j > 0 {
                            let j1 = j - 1;
                            assert(at + 1 + j1 == at + j);
                            assert(s[(at + 1 + j1) % (s.len() as int)].deleted);
                        }
                    }
                    assert(0 <= k2 < left && i == (at + k2) % (s.len() as int));
                },
                None => {
                    assert forall|k: int| 0 <= k < left implies s[#[trigger] ((at + k) % (
                    s.len() as int))].deleted by {
                        if k > 0 {
                            let k1 = k - 1;
                            assert(at + 1 + k1 == at + k);
                            assert(s[(at + 1 + k1) % (s.len() as int)].deleted);
                        }
                    }
                },
            }
        }
    }
}

/// Playback only ever comes to a frame that is kept, it passes over no kept frame on
/// its way, and it stays where it is only if no frame is kept.
pub proof fn law_playback_shows_kept_frames(s: EditorView)
    requires
        s.wf(),
        s.frames.len() > 0,
    ensures
        (exists|i: int| 0 <= i < s.frames.len() && !(#[trigger] s.frames[i]).deleted) ==> {
            let t = advanced(s).current as int;
            &&& !s.frames[t].deleted
            &&& exists|k: int|
                1 <= k <= s.frames.len() && t == (#[trigger] (s.current + k)) % (
                s.frames.len() as int) && forall|j: int|
                    1 <= j < k ==> s.frames[#[trigger] ((s.current + j) % (
                    s.frames.len() as int))].deleted
        },
        (forall|i: int| 0 <= i < s.frames.len() ==> (#[trigger] s.frames[i]).deleted) ==> advanced(
            s,
        ) == s,
{
    let n = s.frames.len() as int;
    lemma_next_active(s.frames, s.current + 1, s.frames.len());
    match next_active(s.frames, s.current + 1, s.frames.len()) {
        Some(i) => {
            let k = choose|k: int|
                0 <= k < n && i == (#[trigger] (s.current + 1 + k)) % n && forall|j: int|
                    0 <= j < k ==> s.frames[#[trigger] ((s.current + 1 + j) % n)].deleted;
            let k2 = k + 1;
            assert(s.current + k2 == s.current + 1 + k);
            assert forall|j: int| 1 <= j < k2 implies s.frames[#[trigger] ((s.current + j)
                % n)].deleted by {
                let j1 = j - 1;
                assert(s.current + 1 + j1 == s.current + j);
                assert(s.frames[(s.current + 1 + j1) % n].deleted);
            }
            assert(1 <= k2 <= n && i == (s.current + k2) % n);
        },
        None => {
            assert forall|i: int| 0 <= i < n implies (#[trigger] s.frames[i]).deleted by {
                let k = if i > s.current {
                    i - s.current - 1
                } else {
                    i - s.current - 1 + n
                };
                if i > s.current {
                    assert(s.current + 1 + k == i);
                    vstd::arithmetic::div_mod::lemma_small_mod(i as nat, n as nat);
                } else {
                    assert(s.current + 1 + k == i + n);
                    vstd::arithmetic::div_mod::lemma_mod_add_multiples_vanish(i, n);
                    vstd::arithmetic::div_mod::lemma_small_mod(i as nat, n as nat);
                }
                assert(s.frames[(s.current + 1 + k) % n].deleted);
            }
        },
    }
}

/// Trimming again with the same marks changes nothing, it brings no frame back, and
/// the marks may be set in either order.
pub proof fn law_trimming(s: Seq<FrameEntry>, a: usize, b: usize)
    ensures
        trimmed(trimmed(s, a as int, b as int), a as int, b as int) == trimmed(
            s,
            a as int,
            b as int,
        ),
        forall|i: int|
            0 <= i < s.len() && s[i].deleted ==> (#[trigger] trimmed(
                s,
                a as int,
                b as int,
            )[i]).deleted,
        selected_range(Some(a), Some(b)) == selected_range(Some(b), Some(a)),
{
    assert(trimmed(trimmed(s, a as int, b as int), a as int, b as int) =~= trimmed(
        s,
        a as int,
        b as int,
    ));
}

/// Deleting a frame and bringing it back leaves the recording as it was.
pub proof fn law_toggle_twice(s: Seq<FrameEntry>, i: int)
    ensures
        toggled(toggled(s, i), i) == s,
{
    assert(toggled(toggled(s, i), i) =~= s);
}

/// An export holds as many frames as are kept.
pub proof fn law_export_holds_kept_frames(s: Seq<FrameEntry>, delay_ms: u32)
    ensures
        exported(s, delay_ms).len() == active_count(s),
        forall|i: int| 0 <= i < exported(s, delay_ms).len() ==> (#[trigger] exported(s, delay_ms)[i]).1 == delay_ms,
    decreases s.len(),
{
    if s.len() > 0 {
        law_export_holds_kept_frames(s.drop_last(), delay_ms);
        let head = exported(s.drop_last(), delay_ms);
        assert forall|i: int| 0 <= i < exported(s, delay_ms).len() implies (#[trigger] exported(
            s,
            delay_ms,
        )[i]).1 == delay_ms by {
            if i < head.len() {
                assert(exported(s, delay_ms)[i] == head[i]);
            }
        }
    }
}

/// A recording is thrown away only after it has been encoded.
pub proof fn law_failed_export_keeps_recording(copy: bool)
    ensures
        cleanup_of(false, copy).len() == 0,
        cleanup_of(true, copy).contains(Cleanup::RemoveSpool),
        cleanup_of(true, copy).contains(Cleanup::RemoveSidecar),
        cleanup_of(true, copy).contains(Cleanup::CopyFile) <==> copy,
{
    let s = cleanup_of(true, copy);
    if copy {
        assert(s[0] == Cleanup::CopyFile && s[1] == Cleanup::RemoveSpool && s[2]
            == Cleanup::RemoveSidecar);
    } else {
        assert(s[0] == Cleanup::RemoveSpool && s[1] == Cleanup::RemoveSidecar);
    }
}

proof fn lemma_frames_add(a: Seq<FrameEntry>, b: Seq<FrameEntry>, delay_ms: u32)
    ensures
        active_count(a + b) == active_count(a) + active_count(b),
        active_ms(a + b) == active_ms(a) + active_ms(b),
        exported(a + b, delay_ms) == exported(a, delay_ms) + exported(b, delay_ms),
    decreases b.len(),
{
    if b.len() == 0 {
        assert(a + b =~= a);
        assert(exported(a, delay_ms) + exported(b, delay_ms) =~= exported(a, delay_ms));
    } else {
        assert((a + b).drop_last() =~= a + b.drop_last());
        lemma_frames_add(a, b.drop_last(), delay_ms);
        assert(exported(a + b, delay_ms) =~= exported(a, delay_ms) + exported(b, delay_ms));
    }
}

/// Frames are counted, timed and exported one by one in their order: a deleted
/// frame adds nothing, any other adds one, its own delay, and its file with the
/// delay of the export.
pub proof fn law_each_kept_frame_counts(
    a: Seq<FrameEntry>,
    f: FrameEntry,
    b: Seq<FrameEntry>,
    delay_ms: u32,
)
    ensures
        ({
            let all = a + seq![f] + b;
            let others = a + b;
            &&& f.deleted ==> active_count(all) == active_count(others) && active_ms(all)
                == active_ms(others) && exported(all, delay_ms) == exported(others, delay_ms)
            &&& !f.deleted ==> active_count(all) == active_count(others) + 1
            &&& !f.deleted ==> active_ms(all) == active_ms(others) + f.delay_ms
            &&& !f.deleted ==> exported(all, delay_ms) == exported(a, delay_ms).push(
                (f.path, delay_ms),
            ) + exported(b, delay_ms)
        }),
        active_count(Seq::empty()) == 0 && active_ms(Seq::empty()) == 0,
        exported(Seq::empty(), delay_ms).len() == 0,
{
    lemma_frames_add(a + seq![f], b, delay_ms);
    lemma_frames_add(a, seq![f], delay_ms);
    lemma_frames_add(a, b, delay_ms);
    assert(seq![f].drop_last() =~= Seq::<FrameEntry>::empty());
    assert(active_count(seq![f].drop_last()) == 0);
    assert(active_ms(seq![f].drop_last()) == 0);
    assert(exported(seq![f].drop_last(), delay_ms) =~= Seq::empty());
    if f.deleted {
        assert(exported(a, delay_ms) + exported(seq![f], delay_ms) =~= exported(a, delay_ms));
    } else {
        assert(exported(seq![f], delay_ms) =~= seq![(f.path, delay_ms)]);
        assert(exported(a, delay_ms) + exported(seq![f], delay_ms) =~= exported(a, delay_ms).push(
            (f.path, delay_ms),
        ));
    }
}

/// The selection is the two marks in order; there is none until both are set.
pub proof fn law_selection_lies_between_the_marks(a: Option<usize>, b: Option<usize>)
    ensures
        selected_range(a, b) is Some <==> a is Some && b is Some,
        selected_range(a, b) matches Some((lo, hi)) ==> lo <= hi && ((lo == a->0 && hi == b->0) || (
        lo == b->0 && hi == a->0)),
{
}

/// Trimming deletes what lies outside the selection, brings nothing back, and
/// leaves the files and the delays as they are.
pub proof fn law_trimming_deletes_what_lies_outside(s: Seq<FrameEntry>, lo: int, hi: int, i: int)
    requires
        0 <= i < s.len(),
    ensures
        trimmed(s, lo, hi).len() == s.len(),
        i < lo || hi < i ==> trimmed(s, lo, hi)[i].deleted,
        lo <= i <= hi ==> trimmed(s, lo, hi)[i] == s[i],
        trimmed(s, lo, hi)[i].path == s[i].path,
        trimmed(s, lo, hi)[i].delay_ms == s[i].delay_ms,
{
}

/// Deleting a frame by a click changes that frame alone, and always changes it.
pub proof fn law_toggle_changes_one_frame(s: Seq<FrameEntry>, i: int, k: int)
    requires
        0 <= k < s.len(),
    ensures
        toggled(s, i).len() == s.len(),
        k != i ==> toggled(s, i)[k] == s[k],
        k == i ==> toggled(s, i)[k].deleted == !s[k].deleted,
        toggled(s, i)[k].path == s[k].path && toggled(s, i)[k].delay_ms == s[k].delay_ms,
{
}

/// A frame is shown for the part of a second that its rate leaves it, in whole
/// milliseconds rounded down, and never less than ten; without a rate for one
/// second.
pub proof fn law_wait_is_a_share_of_a_second(fps: u32)
    ensures
        wait_ms(fps) >= 10,
        1 <= fps <= 100 ==> wait_ms(fps) * fps <= 1000 < (wait_ms(fps) + 1) * fps,
        fps > 100 ==> wait_ms(fps) == 10,
        fps == 0 ==> wait_ms(fps) == 1000,
{
    if fps > 0 {
        let d = 1000int / (fps as int);
        vstd::arithmetic::div_mod::lemma_fundamental_div_mod(1000, fps as int);
        assert(d * fps <= 1000 < (d + 1) * fps) by (nonlinear_arith)
            requires
                1000 == fps as int * d + 1000int % (fps as int),
                0 <= 1000int % (fps as int) < fps,
                fps > 0,
        ;
        if fps <= 100 {
            assert(d >= 10) by (nonlinear_arith)
                requires
                    1000 < (d + 1) * fps,
                    0 < fps <= 100,
            ;
        } else {
            assert(d < 10) by (nonlinear_arith)
                requires
                    d * fps <= 1000,
                    fps > 100,
            ;
        }
    }
}

/// The rate of an export lies between 5 and 60 frames a second: one outside
/// counts as the nearer of the two.
pub proof fn law_export_rate_is_bounded(fps: u32)
    ensures
        5 <= fps <= 60 ==> export_delay(fps) * fps <= 1000 < (export_delay(fps) + 1) * fps,
        fps < 5 ==> export_delay(fps) == 200,
        fps > 60 ==> export_delay(fps) == 16,
        16 <= export_delay(fps) <= 200,
{
    law_wait_is_a_share_of_a_second(fps);
    let bounded = bounded_fps(fps as int) as u32;
    law_wait_is_a_share_of_a_second(bounded);
    let w = wait_ms(bounded);
    assert(16 <= w <= 200) by (nonlinear_arith)
        requires
            w * bounded <= 1000 < (w + 1) * bounded,
            5 <= bounded <= 60,
    ;
    assert(fps < 5 ==> bounded == 5);
    assert(fps > 60 ==> bounded == 60);
    assert(wait_ms(5) == 200 && wait_ms(60) == 16);
}

/// The share that is done is a whole number of hundredths, rounded down. It is
/// nothing of nothing, and all once as many are done as there are.
pub proof fn law_percent_is_a_share(done: int, total: int)
    requires
        0 <= done,
        0 <= total,
    ensures
        0 <= percent_of(done, total) <= 100,
        0 <= done <= total && total > 0 ==> percent_of(done, total) * total <= 100 * done < (
        percent_of(done, total) + 1) * total,
        done >= total > 0 ==> percent_of(done, total) == 100,
        total == 0 ==> percent_of(done, total) == 0,
{
    if total > 0 {
        let q = done * 100 / total;
        vstd::arithmetic::div_mod::lemma_fundamental_div_mod(done * 100, total);
        assert(q * total <= 100 * done < (q + 1) * total) by (nonlinear_arith)
            requires
                done * 100 == total * q + (done * 100) % total,
                0 <= (done * 100) % total < total,
        ;
        assert(q >= 0) by (nonlinear_arith)
            requires
                100 * done < (q + 1) * total,
                0 <= done,
                total > 0,
        ;
        if done <= total {
            assert(q <= 100) by (nonlinear_arith)
                requires
                    q * total <= 100 * done,
                    done <= total,
                    total > 0,
            ;
        }
        if done >= total {
            assert(q >= 100) by (nonlinear_arith)
                requires
                    100 * done < (q + 1) * total,
                    done >= total,
                    total > 0,
            ;
        }
    }
}

/// The file is copied before the frames are removed, and the description of the
/// recording goes last; each is done once.
pub proof fn law_cleanup_order(copy: bool)
    ensures
        cleanup_of(true, copy).last() == Cleanup::RemoveSidecar,
        cleanup_of(true, copy).drop_last().last() == Cleanup::RemoveSpool,
        copy ==> cleanup_of(true, copy)[0] == Cleanup::CopyFile,
        cleanup_of(true, copy).len() == cleanup_of(true, false).len() + (if copy {
            1int
        } else {
            0
        }),
        cleanup_of(true, false).len() == 2,
{
}

/// A frame's classes are `frame` and one more for each that holds of it: that
/// it is the current one, that it is deleted, and that a mark is on it, in this
/// order.
pub proof fn law_classes_add_up(s: EditorView, i: usize)
    ensures
        ({
            let c = frame_classes(s, i);
            let current = i == s.current;
            let deleted = i < s.frames.len() && s.frames[i as int].deleted;
            let opens = s.trim_in == Some(i);
            let closes = s.trim_out == Some(i);
            let a = 5 + (if current {
                8int
            } else {
                0
            });
            let b = a + (if deleted {
                8int
            } else {
                0
            });
            let d = b + (if opens {
                8int
            } else {
                0
            });
            let e = d + (if closes {
                9int
            } else {
                0
            });
            &&& c.len() == e
            &&& c.take(5) == "frame"@
            &&& current ==> c.subrange(5, a) == " current"@
            &&& deleted ==> c.subrange(a, b) == " deleted"@
            &&& opens ==> c.subrange(b, d) == " in-mark"@
            &&& closes ==> c.subrange(d, e) == " out-mark"@
        }),
{
    reveal_strlit("frame");
    reveal_strlit(" current");
    reveal_strlit(" deleted");
    reveal_strlit(" in-mark");
    reveal_strlit(" out-mark");
    let c = frame_classes(s, i);
    assert(c.take(5) =~= "frame"@);
    let current = i == s.current;
    let deleted = i < s.frames.len() && s.frames[i as int].deleted;
    let opens = s.trim_in == Some(i);
    let a = 5 + (if current {
        8int
    } else {
        0
    });
    let b = a + (if deleted {
        8int
    } else {
        0
    });
    let d = b + (if opens {
        8int
    } else {
        0
    });
    assert(current ==> c.subrange(5, a) =~= " current"@);
    assert(deleted ==> c.subrange(a, b) =~= " deleted"@);
    assert(opens ==> c.subrange(b, d) =~= " in-mark"@);
    assert(s.trim_out == Some(i) ==> c.subrange(d, d + 9) =~= " out-mark"@);
}

} // verus!
