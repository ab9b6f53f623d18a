//! Animated GIF export: which frames are written, where and for how long.
//!
//! Frames equal to their predecessor are folded into it, and every frame after
//! the first holds only the rectangle that changed. A viewer keeps what is
//! outside the rectangle, so playing the frames shows the pictures unchanged.
use vstd::prelude::*;
use crate::editor::rasterize::crop;
use crate::image::RgbaImage;
use crate::px::Rgba;

verus! {

/// A delay in GIF centiseconds: whole ticks, at least one and at most what 16 bits hold.
pub open spec fn centisec_of(delay_ms: u32) -> u16 {
    if delay_ms < 20 {
        1
    } else if delay_ms / 10 > 65535 {
        65535
    } else {
        (delay_ms / 10) as u16
    }
}

/// Converts a delay in milliseconds to GIF centiseconds.
pub fn delay_ms_to_centisec(delay_ms: u32) -> (r: u16)
    ensures
        r == centisec_of(delay_ms),
        10 <= delay_ms <= 655359 ==> 10 * r <= delay_ms < 10 * r + 10,
        delay_ms < 10 ==> r == 1,
        delay_ms > 655359 ==> r == 65535,
{
    let ticks: u32 = delay_ms / 10;
    if ticks < 1 {
        1
    } else if ticks > 65535 {
        65535
    } else {
        ticks as u16
    }
}

/// A decoded picture and how long it is shown.
#[derive(Debug)]
pub struct DecodedFrame {
    pub image: RgbaImage,
    pub delay_ms: u32,
}

/// A picture: width, height and bytes.
pub struct PictureView {
    pub width: u32,
    pub height: u32,
    pub raw: Seq<u8>,
}

/// A frame as plain values.
pub struct FrameView {
    pub picture: PictureView,
    pub delay_ms: u32,
}

impl View for DecodedFrame {
    type V = FrameView;

    open spec fn view(&self) -> FrameView {
        FrameView {
            picture: PictureView {
                width: self.image.width,
                height: self.image.height,
                raw: self.image.raw@,
            },
            delay_ms: self.delay_ms,
        }
    }
}

/// The views of a list of frames.
pub open spec fn frame_views(s: Seq<DecodedFrame>) -> Seq<FrameView> {
    s.map_values(|f: DecodedFrame| f@)
}

/// The sum of two delays, at most what 32 bits hold.
pub open spec fn joined_delay(a: u32, b: u32) -> u32 {
    if a + b > u32::MAX {
        u32::MAX
    } else {
        (a + b) as u32
    }
}

/// The frames with each run of equal pictures folded into its first frame.
pub open spec fn compacted(s: Seq<FrameView>) -> Seq<FrameView>
    decreases s.len(),
{
    if s.len() == 0 {
        Seq::empty()
    } else {
        let head = compacted(s.drop_last());
        let f = s.last();
        if head.len() > 0 && head.last().picture == f.picture {
            head.drop_last().push(
                FrameView {
                    picture: f.picture,
                    delay_ms: joined_delay(head.last().delay_ms, f.delay_ms),
                },
            )
        } else {
            head.push(f)
        }
    }
}

/// Whether two images are equal byte for byte.
fn same_picture(a: &RgbaImage, b: &RgbaImage) -> (r: bool)
    ensures
        r == (a.width == b.width && a.height == b.height && a.raw@ == b.raw@),
{
    if a.width != b.width || a.height != b.height || a.raw.len() != b.raw.len() {
        return false;
    }
    let mut i: usize = 0;
    while i < a.raw.len()
        invariant
            i <= a.raw@.len(),
            a.raw@.len() == b.raw@.len(),
            forall|k: int| 0 <= k < i ==> a.raw@[k] == b.raw@[k],
        decreases a.raw@.len() - i,
    {
        if a.raw[i] != b.raw[i] {
            return false;
        }
        i += 1;
    }
    assert(a.raw@ =~= b.raw@);
    true
}

/// Folds frames that equal their predecessor into it.
pub fn compact_identical(decoded: Vec<DecodedFrame>) -> (r: Vec<DecodedFrame>)
    ensures
        frame_views(r@) == compacted(frame_views(decoded@)),
        (forall|i: int| 0 <= i < decoded@.len() ==> (#[trigger] decoded@[i]).image.wf()) ==> (
        forall|i: int| 0 <= i < r@.len() ==> (#[trigger] r@[i]).image.wf()),
{
    let mut out: Vec<DecodedFrame> = Vec::new();
    let mut i: usize = 0;
    let ghost all = frame_views(decoded@);
    assert(frame_views(out@) =~= Seq::empty());
    assert(all.take(0) =~= Seq::empty());
    while i < decoded.len()
        invariant
            i <= decoded@.len(),
            all == frame_views(decoded@),
            frame_views(out@) == compacted(all.take(i as int)),
            (forall|k: int| 0 <= k < decoded@.len() ==> (#[trigger] decoded@[k]).image.wf()) ==> (
            forall|k: int| 0 <= k < out@.len() ==> (#[trigger] out@[k]).image.wf()),
        decreases decoded@.len() - i,
    {
        let f = &decoded[i];
        let ghost before = out@;
        proof {
            assert(all.take(i + 1).drop_last() =~= all.take(i as int));
            assert(all.take(i + 1).last() == f@);
            if out@.len() > 0 {
                assert(frame_views(out@).last() == out@.last()@);
            }
        }
        let n: usize = out.len();
        if n > 0 && same_picture(&out[n - 1].image, &f.image) {
            let last = out.pop();
            match last {
                Some(g) => {
                    let total: u32 = if g.delay_ms > u32::MAX - f.delay_ms {
                        u32::MAX
                    } else {
                        g.delay_ms + f.delay_ms
                    };
                    let merged = DecodedFrame { image: g.image, delay_ms: total };
                    out.push(merged);
                    proof {
                        assert(frame_views(out@) =~= frame_views(before).drop_last().push(
                            merged@,
                        ));
                    }
                },
                None => {},
            }
        } else {
            let copy = DecodedFrame { image: f.image.clone(), delay_ms: f.delay_ms };
            out.push(copy);
            assert(frame_views(out@) =~= frame_views(before).push(copy@));
        }
        i += 1;
    }
    assert(all.take(i as int) =~= all);
    out
}

// ---------------------------------------------------------------------------
// Differences
// ---------------------------------------------------------------------------

/// Whether two images of one size differ at a pixel.
pub open spec fn differs(a: &RgbaImage, b: &RgbaImage, x: int, y: int) -> bool {
    a.inside(x, y) && a.at(x, y) != b.at(x, y)
}

/// Whether the rectangle is the smallest one around all differing pixels.
pub open spec fn is_diff_box(
    a: &RgbaImage,
    b: &RgbaImage,
    l: int,
    t: int,
    r: int,
    bottom: int,
) -> bool {
    &&& 0 <= l < r <= a.width
    &&& 0 <= t < bottom <= a.height
    &&& forall|x: int, y: int| #[trigger]
        differs(a, b, x, y) ==> crate::image::in_area(x, y, l, t, r, bottom)
    &&& exists|y: int| #[trigger] differs(a, b, l, y)
    &&& exists|y: int| #[trigger] differs(a, b, r - 1, y)
    &&& exists|x: int| #[trigger] differs(a, b, x, t)
    &&& exists|x: int| #[trigger] differs(a, b, x, bottom - 1)
}

/// The smallest rectangle around all pixels where `a` and `b` differ, as
/// (left, top, right, bottom) with right and bottom exclusive; `None` if the
/// images are equal.
pub fn bbox_of_diff(a: &RgbaImage, b: &RgbaImage) -> (r: Option<(u32, u32, u32, u32)>)
    requires
        a.wf(),
        b.wf(),
        a.same_size(b),
    ensures
        match r {
            Some((l, t, right, bottom)) => is_diff_box(
                a,
                b,
                l as int,
                t as int,
                right as int,
                bottom as int,
            ),
            None => forall|x: int, y: int| !differs(a, b, x, y),
        },
{
    let w: u32 = a.width;
    let h: u32 = a.height;
    let mut found: bool = false;
    let mut l: u32 = 0;
    let mut t: u32 = 0;
    let mut right: u32 = 0;
    let mut bottom: u32 = 0;
    let mut cy: u32 = 0;
    while cy < h
        invariant
            cy <= h,
            w == a.width,
            h == a.height,
            a.wf(),
            b.wf(),
            a.same_size(b),
            found ==> 0 <= l < right <= w && 0 <= t < bottom <= cy,
            forall|x: int, y: int| #[trigger]
                differs(a, b, x, y) && y < cy ==> found && crate::image::in_area(
                    x,
                    y,
                    l as int,
                    t as int,
                    right as int,
                    bottom as int,
                ),
            found ==> exists|y: int| #[trigger] differs(a, b, l as int, y),
            found ==> exists|y: int| #[trigger] differs(a, b, right - 1, y),
            found ==> exists|x: int| #[trigger] differs(a, b, x, t as int),
            found ==> exists|x: int| #[trigger] differs(a, b, x, bottom - 1),
        decreases h - cy,
    {
        let mut cx: u32 = 0;
        while cx < w
            invariant
                cx <= w,
                cy < h,
                w == a.width,
                h == a.height,
                a.wf(),
                b.wf(),
                a.same_size(b),
                found ==> 0 <= l < right <= w && 0 <= t < bottom <= cy + 1,
                forall|x: int, y: int| #[trigger]
                    differs(a, b, x, y) && (y < cy || (y == cy && x < cx)) ==> found
                        && crate::image::in_area(
                        x,
                        y,
                        l as int,
                        t as int,
                        right as int,
                        bottom as int,
                    ),
                found ==> exists|y: int| #[trigger] differs(a, b, l as int, y),
                found ==> exists|y: int| #[trigger] differs(a, b, right - 1, y),
                found ==> exists|x: int| #[trigger] differs(a, b, x, t as int),
                found ==> exists|x: int| #[trigger] differs(a, b, x, bottom - 1),
            decreases w - cx,
        {
            if a.get_pixel(cx, cy) != b.get_pixel(cx, cy) {
                assert(differs(a, b, cx as int, cy as int));
                if found {
                    if cx < l {
                        l = cx;
                    }
                    if cx + 1 > right {
                        right = cx + 1;
                    }
                } else {
                    found = true;
                    l = cx;
                    right = cx + 1;
                    t = cy;
                }
                bottom = cy + 1;
                assert(differs(a, b, cx as int, bottom - 1));
                assert(right == cx + 1 ==> differs(a, b, right - 1, cy as int));
            }
            cx += 1;
        }
        cy += 1;
    }
    if found {
        Some((l, t, right, bottom))
    } else {
        None
    }
}

/// Copies a rectangle out of an image as row-packed bytes.
pub fn extract_subimage(img: &RgbaImage, l: u32, t: u32, r: u32, b: u32) -> (out: RgbaImage)
    requires
        img.wf(),
        l <= r <= img.width,
        t <= b <= img.height,
    ensures
        out.wf(),
        out.width == r - l,
        out.height == b - t,
        forall|x: int, y: int| out.inside(x, y) ==> #[trigger] out.at(x, y) == img.at(l + x, t + y),
{
    let n: usize = img.raw.len();
    proof {
        assert((r - l) * (b - t) <= img.width * img.height) by (nonlinear_arith)
            requires
                0 <= l <= r <= img.width,
                0 <= t <= b <= img.height,
        ;
        assert(img.raw@.len() == n);
    }
    crop(img, l, t, r - l, b - t)
}

/// One sub-image of the animation: a picture, its place on the canvas and its
/// delay in centiseconds.
#[derive(Debug)]
pub struct GifFrame {
    pub left: u16,
    pub top: u16,
    pub delay: u16,
    pub image: RgbaImage,
}

impl GifFrame {
    pub open spec fn wf(&self) -> bool {
        self.image.wf() && self.image.width <= 65535 && self.image.height <= 65535
    }
}

/// What a viewer shows after a frame: the frame where it lies, the picture
/// before it elsewhere.
pub open spec fn shown(before: &RgbaImage, f: &GifFrame, x: int, y: int) -> Rgba {
    if f.image.inside(x - f.left, y - f.top) {
        f.image.at(x - f.left, y - f.top)
    } else {
        before.at(x, y)
    }
}

/// Whether `f` takes a viewer from one picture to the next: with equal sizes
/// it is the smallest rectangle of changes, with different sizes the whole
/// picture; without a change it is one transparent pixel.
pub open spec fn is_diff_frame(
    prev: &RgbaImage,
    curr: &RgbaImage,
    delay: u16,
    f: &GifFrame,
) -> bool {
    &&& f.wf()
    &&& f.delay == delay
    &&& if prev.same_size(curr) && (forall|x: int, y: int| !differs(prev, curr, x, y)) {
        &&& f.left == 0 && f.top == 0
        &&& f.image.width == 1 && f.image.height == 1
        &&& f.image.at(0, 0) == (Rgba { r: 0, g: 0, b: 0, a: 0 })
    } else {
        &&& if prev.same_size(curr) {
            is_diff_box(
                prev,
                curr,
                f.left as int,
                f.top as int,
                f.left + f.image.width,
                f.top + f.image.height,
            )
        } else {
            f.left == 0 && f.top == 0 && f.image.same_size(curr)
        }
        &&& forall|x: int, y: int|
            f.image.inside(x, y) ==> #[trigger] f.image.at(x, y) == curr.at(f.left + x, f.top + y)
    }
}

/// Builds the frame that turns `prev` into `curr`.
pub fn build_diff_frame(prev: &RgbaImage, curr: &RgbaImage, delay: u16) -> (f: GifFrame)
    requires
        prev.wf(),
        curr.wf(),
        curr.width <= 65535,
        curr.height <= 65535,
    ensures
        is_diff_frame(prev, curr, delay, &f),
{
    let bbox: Option<(u32, u32, u32, u32)> = if prev.width == curr.width && prev.height
        == curr.height {
        bbox_of_diff(prev, curr)
    } else {
        Some((0, 0, curr.width, curr.height))
    };
    match bbox {
        Some((l, t, r, b)) => {
            proof {
                if prev.same_size(curr) {
                    let y = choose|y: int| #[trigger] differs(prev, curr, l as int, y);
                    assert(differs(prev, curr, l as int, y));
                }
            }
            let image = extract_subimage(curr, l, t, r, b);
            GifFrame { left: l as u16, top: t as u16, delay, image }
        },
        None => {
            let clear = Rgba { r: 0, g: 0, b: 0, a: 0 };
            let image = RgbaImage::from_pixel(1, 1, clear);
            assert(image.inside(0, 0));
            assert(image.at(0, 0) == clear);
            GifFrame { left: 0, top: 0, delay, image }
        },
    }
}

/// A frame of changes, drawn over the picture before it, shows the new picture.
pub proof fn law_diff_frame_restores(
    prev: &RgbaImage,
    curr: &RgbaImage,
    delay: u16,
    f: &GifFrame,
    x: int,
    y: int,
)
    requires
        prev.same_size(curr),
        exists|i: int, j: int| differs(prev, curr, i, j),
        is_diff_frame(prev, curr, delay, f),
        curr.inside(x, y),
    ensures
        shown(prev, f, x, y) == curr.at(x, y),
{
    if f.image.inside(x - f.left, y - f.top) {
        assert(f.image.at(x - f.left, y - f.top) == curr.at(
            f.left + (x - f.left),
            f.top + (y - f.top),
        ));
    } else {
        assert(!crate::image::in_area(
            x,
            y,
            f.left as int,
            f.top as int,
            f.left + f.image.width,
            f.top + f.image.height,
        ));
        assert(!differs(prev, curr, x, y));
    }
}

// ---------------------------------------------------------------------------
// The whole animation
// ---------------------------------------------------------------------------

/// Why an animation cannot be written.
#[derive(Debug, Clone, Copy, PartialEq, Eq, Structural)]
pub enum GifFault {
    NoFrames,
    WidthTooLarge,
    HeightTooLarge,
}

impl GifFault {
    pub open spec fn text(self) -> Seq<char> {
        match self {
            GifFault::NoFrames => "no frames to encode"@,
            GifFault::WidthTooLarge => "frame width > 65535"@,
            GifFault::HeightTooLarge => "frame height > 65535"@,
        }
    }

    pub fn message(self) -> (r: &'static str)
        ensures
            r@ == self.text(),
    {
        match self {
            GifFault::NoFrames => "no frames to encode",
            GifFault::WidthTooLarge => "frame width > 65535",
            GifFault::HeightTooLarge => "frame height > 65535",
        }
    }
}

/// An animation ready to be written: the canvas, how often it repeats (`None`
/// for ever) and its frames.
#[derive(Debug)]
pub struct GifPlan {
    pub width: u16,
    pub height: u16,
    pub repeat: Option<u16>,
    pub frames: Vec<GifFrame>,
}

/// Whether every picture can be a GIF frame once the first one can: it is well
/// formed and, if its size is not that of the first, fits 16 bits.
pub open spec fn encodable(s: Seq<DecodedFrame>) -> bool {
    forall|i: int| #![trigger s[i]]
        0 <= i < s.len() ==> {
            &&& s[i].image.wf()
            &&& s[i].image.same_size(&s[0].image) || (s[i].image.width <= 65535
                && s[i].image.height <= 65535)
        }
}

/// Whether `f` is the frame at position `i` of the compacted animation.
pub open spec fn is_planned_frame(s: Seq<DecodedFrame>, i: int, f: &GifFrame) -> bool {
    if i == 0 {
        &&& f.wf()
        &&& f.left == 0 && f.top == 0
        &&& f.delay == centisec_of(s[0].delay_ms)
        &&& f.image.width == s[0].image.width
        &&& f.image.height == s[0].image.height
        &&& f.image.raw@ == s[0].image.raw@
    } else {
        is_diff_frame(&s[i - 1].image, &s[i].image, centisec_of(s[i].delay_ms), f)
    }
}

/// Whether `plan` is the animation of the (compacted) pictures.
pub open spec fn is_plan(s: Seq<DecodedFrame>, loop_count: u16, plan: &GifPlan) -> bool {
    &&& s.len() > 0
    &&& plan.width == s[0].image.width
    &&& plan.height == s[0].image.height
    &&& plan.repeat == (if loop_count == 0 {
        None
    } else {
        Some(loop_count)
    })
    &&& plan.frames@.len() == s.len()
    &&& forall|i: int|
        0 <= i < s.len() ==> is_planned_frame(s, i, #[trigger] &plan.frames@[i])
}

proof fn lemma_compacted_sources(s: Seq<FrameView>)
    ensures
        compacted(s).len() <= s.len(),
        s.len() > 0 ==> compacted(s).len() > 0 && compacted(s)[0].picture == s[0].picture,
        forall|i: int|
            0 <= i < compacted(s).len() ==> exists|k: int|
                0 <= k < s.len() && s[k].picture == (#[trigger] compacted(s)[i]).picture,
    decreases s.len(),
{
    if s.len() > 0 {
        let front = s.drop_last();
        lemma_compacted_sources(front);
        let head = compacted(front);
        let all = compacted(s);
        assert forall|i: int| 0 <= i < all.len() implies exists|k: int|
            0 <= k < s.len() && s[k].picture == (#[trigger] all[i]).picture by {
            if i < head.len() {
                let k = choose|k: int| 0 <= k < front.len() && front[k].picture == head[i].picture;
                assert(s[k].picture == all[i].picture);
            } else {
                assert(s[s.len() - 1].picture == all[i].picture);
            }
        }
        if front.len() > 0 {
            assert(front[0] == s[0]);
            assert(all[0].picture == head[0].picture);
        }
    }
}

/// Plans the animation of a list of pictures: folds equal neighbours, writes
/// the first picture whole and then only what changes.
pub fn encode_to_gif(frames: Vec<DecodedFrame>, loop_count: u16) -> (r: Result<GifPlan, GifFault>)
    requires
        encodable(frames@),
    ensures
        match r {
            Ok(plan) => frames@.len() > 0 && frames@[0].image.width <= 65535
                && frames@[0].image.height <= 65535 && exists|kept: Seq<DecodedFrame>|
                frame_views(kept) == compacted(frame_views(frames@)) && is_plan(
                    kept,
                    loop_count,
                    &plan,
                ),
            Err(GifFault::NoFrames) => frames@.len() == 0,
            Err(GifFault::WidthTooLarge) => frames@.len() > 0 && frames@[0].image.width > 65535,
            Err(GifFault::HeightTooLarge) => frames@.len() > 0 && frames@[0].image.width <= 65535
                && frames@[0].image.height > 65535,
        },
{
    if frames.len() == 0 {
        return Err(GifFault::NoFrames);
    }
    let ghost given = frames@;
    let ghost views = frame_views(given);
    let kept = compact_identical(frames);
    proof {
        lemma_compacted_sources(views);
        assert(frame_views(kept@)[0] == kept@[0]@);
        assert(views[0] == given[0]@);
    }
    if kept[0].image.width > 65535 {
        return Err(GifFault::WidthTooLarge);
    }
    if kept[0].image.height > 65535 {
        return Err(GifFault::HeightTooLarge);
    }
    proof {
        assert forall|i: int| 0 <= i < kept@.len() implies (#[trigger] kept@[i]).image.wf()
            && kept@[i].image.width <= 65535 && kept@[i].image.height <= 65535 by {
            assert(frame_views(kept@)[i] == kept@[i]@);
            let k = choose|k: int|
                0 <= k < views.len() && views[k].picture == compacted(views)[i].picture;
            assert(views[k] == given[k]@);
            assert(given[k].image.wf());
        }
    }
    let width: u16 = kept[0].image.width as u16;
    let height: u16 = kept[0].image.height as u16;
    let mut out: Vec<GifFrame> = Vec::new();
    let first = GifFrame {
        left: 0,
        top: 0,
        delay: delay_ms_to_centisec(kept[0].delay_ms),
        image: kept[0].image.clone(),
    };
    out.push(first);
    let mut i: usize = 1;
    while i < kept.len()
        invariant
            1 <= i <= kept@.len(),
            out@.len() == i,
            forall|k: int|
                0 <= k < kept@.len() ==> (#[trigger] kept@[k]).image.wf() && kept@[k].image.width
                    <= 65535 && kept@[k].image.height <= 65535,
            forall|k: int|
                0 <= k < i ==> is_planned_frame(kept@, k, #[trigger] &out@[k]),
        decreases kept@.len() - i,
    {
        let delay: u16 = delay_ms_to_centisec(kept[i].delay_ms);
        let f = build_diff_frame(&kept[i - 1].image, &kept[i].image, delay);
        out.push(f);
        i += 1;
    }
    let repeat: Option<u16> = if loop_count == 0 {
        None
    } else {
        Some(loop_count)
    };
    let plan = GifPlan { width, height, repeat, frames: out };
    assert(is_plan(kept@, loop_count, &plan));
    Ok(plan)
}

/// Folding leaves no two neighbours with the same picture.
pub proof fn law_no_equal_neighbours(s: Seq<FrameView>, i: int)
    requires
        0 <= i < compacted(s).len() - 1,
    ensures
        compacted(s)[i].picture != compacted(s)[i + 1].picture,
    decreases s.len(),
{
    let front = s.drop_last();
    let head = compacted(front);
    if i + 1 < head.len() {
        law_no_equal_neighbours(front, i);
    }
}

/// The time a list of frames takes.
pub open spec fn total_delay(s: Seq<FrameView>) -> int
    decreases s.len(),
{
    if s.len() == 0 {
        0
    } else {
        total_delay(s.drop_last()) + s.last().delay_ms
    }
}

/// Folding keeps the time the animation takes, as long as no folded delay
/// exceeds 32 bits.
pub proof fn law_compaction_keeps_time(s: Seq<FrameView>)
    requires
        total_delay(s) <= u32::MAX,
    ensures
        total_delay(compacted(s)) == total_delay(s),
    decreases s.len(),
{
    if s.len() > 0 {
        let front = s.drop_last();
        lemma_total_positive(front);
        law_compaction_keeps_time(front);
        let head = compacted(front);
        let all = compacted(s);
        if head.len() > 0 && head.last().picture == s.last().picture {
            lemma_total_positive(head.drop_last());
            assert(all.drop_last() =~= head.drop_last());
        } else {
            assert(all.drop_last() =~= head);
        }
    }
}

proof fn lemma_total_positive(s: Seq<FrameView>)
    ensures
        total_delay(s) >= 0,
    decreases s.len(),
{
    if s.len() > 0 {
        lemma_total_positive(s.drop_last());
    }
}

proof fn lemma_pictures_differ(a: &RgbaImage, b: &RgbaImage)
    requires
        a.wf(),
        b.wf(),
        a.same_size(b),
        a.raw@ != b.raw@,
    ensures
        exists|x: int, y: int| differs(a, b, x, y),
{
    if forall|x: int, y: int| !differs(a, b, x, y) {
        assert forall|k: int| 0 <= k < a.raw@.len() implies a.raw@[k] == b.raw@[k] by {
            let w = a.width as int;
            let h = a.height as int;
            let p = k / 4;
            assert(w > 0) by (nonlinear_arith)
                requires
                    0 <= k < 4 * (w * h),
                    w >= 0,
                    h >= 0,
            ;
            let x = p % w;
            let y = p / w;
            assert(p == y * w + x) by {
                vstd::arithmetic::div_mod::lemma_fundamental_div_mod(p, w);
                assert(w * y == y * w) by (nonlinear_arith);
            }
            assert(0 <= x < w) by {
                vstd::arithmetic::div_mod::lemma_mod_bound(p, w);
            }
            assert(0 <= y < h) by (nonlinear_arith)
                requires
                    p == y * w + x,
                    0 <= x < w,
                    0 <= p,
                    p < w * h,
                    w > 0,
            ;
            assert(!differs(a, b, x, y));
            assert(a.at(x, y) == b.at(x, y));
            assert(4 * crate::image::pixel_index(w, x, y) == 4 * p);
            assert(k == 4 * p || k == 4 * p + 1 || k == 4 * p + 2 || k == 4 * p + 3);
        }
        assert(a.raw@ =~= b.raw@);
    }
}

/// Playing a planned animation of one size shows, at each step, exactly the
/// picture of that step.
pub proof fn law_playback_shows_pictures(
    given: Seq<FrameView>,
    kept: Seq<DecodedFrame>,
    loop_count: u16,
    plan: &GifPlan,
    i: int,
    x: int,
    y: int,
)
    requires
        frame_views(kept) == compacted(given),
        is_plan(kept, loop_count, plan),
        0 < i < kept.len(),
        kept[i - 1].image.wf(),
        kept[i].image.wf(),
        kept[i - 1].image.same_size(&kept[i].image),
        kept[i].image.inside(x, y),
    ensures
        shown(&kept[i - 1].image, &plan.frames@[i], x, y) == kept[i].image.at(x, y),
{
    law_no_equal_neighbours(given, i - 1);
    assert(frame_views(kept)[i - 1] == kept[i - 1]@);
    assert(frame_views(kept)[i] == kept[i]@);
    lemma_pictures_differ(&kept[i - 1].image, &kept[i].image);
    let f = &plan.frames@[i];
    assert(is_planned_frame(kept, i, f));
    law_diff_frame_restores(
        &kept[i - 1].image,
        &kept[i].image,
        centisec_of(kept[i].delay_ms),
        f,
        x,
        y,
    );
}

// ---------------------------------------------------------------------------
// Quantization
// ---------------------------------------------------------------------------

/// A frame reduced to at most 256 colours: the palette as RGB triples, the
/// palette index of each pixel, and the index that is transparent.
pub uninterp spec fn quantized(width: u16, height: u16, rgba: Seq<u8>) -> (
    Seq<u8>,
    Seq<u8>,
    Option<u8>,
);

/// `gif::Frame::from_rgba_speed` at speed 10: the palette, the indices and the
/// transparent index depend on the size and the pixels only. The call panics
/// on a buffer of another length.
#[verifier::external_body]
fn quantize(width: u16, height: u16, rgba: &Vec<u8>) -> (r: (Vec<u8>, Vec<u8>, Option<u8>))
    requires
        rgba@.len() == 4 * (width * height),
    ensures
        (r.0@, r.1@, r.2) == quantized(width, height, rgba@),
        r.1@.len() == width * height,
{
    let mut pixels = rgba.to_vec();
    let f = gif::Frame::from_rgba_speed(width, height, &mut pixels, 10);
    (f.palette.unwrap_or_default(), f.buffer.into_owned(), f.transparent)
}

/// A frame with its own palette, as the file holds it.
#[derive(Debug)]
pub struct IndexedFrame {
    pub left: u16,
    pub top: u16,
    pub width: u16,
    pub height: u16,
    pub delay: u16,
    pub palette: Vec<u8>,
    pub indices: Vec<u8>,
    pub transparent: Option<u8>,
}

/// Reduces a frame to a palette of its own.
pub fn quantize_frame(f: &GifFrame) -> (r: IndexedFrame)
    requires
        f.wf(),
    ensures
        r.left == f.left,
        r.top == f.top,
        r.width == f.image.width,
        r.height == f.image.height,
        r.delay == f.delay,
        (r.palette@, r.indices@, r.transparent) == quantized(
            f.image.width as u16,
            f.image.height as u16,
            f.image.raw@,
        ),
        r.indices@.len() == f.image.width * f.image.height,
{
    let width: u16 = f.image.width as u16;
    let height: u16 = f.image.height as u16;
    let (palette, indices, transparent) = quantize(width, height, &f.image.raw);
    IndexedFrame {
        left: f.left,
        top: f.top,
        width,
        height,
        delay: f.delay,
        palette,
        indices,
        transparent,
    }
}

/// How long a viewer shows a frame: a delay of at least one tick of ten milliseconds
/// that the file can hold loses less than one tick; a shorter one is shown for one tick,
/// and a longer one for as long as the file can say.
pub proof fn law_delay_loses_less_than_a_tick(delay_ms: u32)
    ensures
        10 <= delay_ms <= 655359 ==> 10 * centisec_of(delay_ms) <= delay_ms < 10 * centisec_of(
            delay_ms,
        ) + 10,
        delay_ms < 10 ==> centisec_of(delay_ms) == 1,
        delay_ms > 655359 ==> centisec_of(delay_ms) == 65535,
{
}

/// A longer delay is never shown for a shorter time, and one tick more of delay is one
/// tick more of time.
pub proof fn law_delay_grows(a: u32, b: u32)
    ensures
        a <= b ==> centisec_of(a) <= centisec_of(b),
        10 <= a && a + 10 <= 655359 && b == a + 10 ==> centisec_of(b) == centisec_of(a) + 1,
{
}

/// Two delays joined last as long as both, unless that is more than can be
/// counted.
pub proof fn law_joined_delays_add_up(a: u32, b: u32)
    ensures
        joined_delay(a, b) == joined_delay(b, a),
        joined_delay(a, b) >= a && joined_delay(a, b) >= b,
        joined_delay(a, b) <= a + b,
        joined_delay(a, b) < u32::MAX ==> joined_delay(a, b) - a == b,
        a + b >= u32::MAX ==> joined_delay(a, b) == u32::MAX,
{
}

proof fn lemma_last_picture(s: Seq<FrameView>)
    requires
        s.len() > 0,
    ensures
        compacted(s).len() > 0,
        compacted(s).last().picture == s.last().picture,
{
}

/// One frame more: where it shows the picture of the frame before it, that
/// frame is shown longer and nothing else changes; where it shows another one,
/// it comes behind all the others as it is.
pub proof fn law_one_frame_more(s: Seq<FrameView>, f: FrameView)
    ensures
        ({
            let before = compacted(s);
            let after = compacted(s.push(f));
            let repeats = s.len() > 0 && s.last().picture == f.picture;
            &&& !repeats ==> after == before.push(f)
            &&& repeats ==> after.len() == before.len() && before.len() > 0
            &&& repeats ==> after.drop_last() == before.drop_last()
            &&& repeats ==> after.last().picture == before.last().picture
            &&& repeats && before.last().delay_ms + f.delay_ms <= u32::MAX
                ==> after.last().delay_ms - before.last().delay_ms == f.delay_ms
            &&& repeats && before.last().delay_ms + f.delay_ms > u32::MAX
                ==> after.last().delay_ms == u32::MAX
        }),
        compacted(Seq::empty()).len() == 0,
{
    assert(s.push(f).drop_last() =~= s);
    if s.len() > 0 {
        lemma_last_picture(s);
        assert(compacted(s.push(f)).drop_last() =~= compacted(s) || compacted(
            s.push(f),
        ).drop_last() =~= compacted(s).drop_last());
    }
}

/// A planned animation begins with the whole first picture, shows each frame
/// as long as its delay in hundredths of a second, and runs for ever where the
/// loop count is zero, else that many times. A frame of another size than the
/// one before it is drawn whole.
pub proof fn law_plan_shows_each_frame(
    s: Seq<DecodedFrame>,
    loop_count: u16,
    plan: &GifPlan,
    before: &RgbaImage,
    i: int,
    x: int,
    y: int,
)
    requires
        is_plan(s, loop_count, plan),
        0 <= i < s.len(),
        s[i].image.inside(x, y),
        forall|k: int| 0 <= k < s.len() ==> (#[trigger] s[k]).image.wf(),
    ensures
        plan.frames@.len() == s.len(),
        plan.width == s[0].image.width && plan.height == s[0].image.height,
        plan.repeat is None <==> loop_count == 0,
        plan.repeat matches Some(n) ==> n == loop_count,
        i == 0 ==> shown(before, &plan.frames@[0], x, y) == s[0].image.at(x, y),
        i > 0 && !s[i - 1].image.same_size(&s[i].image) ==> shown(
            before,
            &plan.frames@[i],
            x,
            y,
        ) == s[i].image.at(x, y),
        ({
            let delay = plan.frames@[i].delay;
            &&& delay >= 1
            &&& 10 <= s[i].delay_ms <= 655359 ==> 10 * delay <= s[i].delay_ms < 10 * delay + 10
        }),
{
    assert(is_planned_frame(s, i, &plan.frames@[i]));
    law_delay_loses_less_than_a_tick(s[i].delay_ms);
}

} // verus!
