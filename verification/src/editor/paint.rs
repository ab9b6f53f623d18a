//! How single annotations are painted: in which order their parts come, from where
//! they take pixels, and what is left out. Where a pixel lies in a shape, how a picture
//! is softened and how wide text is, is asked of the caller.
use vstd::prelude::*;
use crate::capture::CaptureMetadata;
use crate::editor::document::{ArrowHeadStyle, FieldKind, StampSource};
use crate::editor::flatten::{fill_where, lay_picture, sample_where};
use crate::editor::rasterize::{capture_info_lines, crop, downsample_over};
use crate::editor::tools::stamp::{resolve, BUILTIN_COUNT};
use crate::image::{blend_area, draw_over, fill_area, RgbaImage};
use crate::px::Rgba;

verus! {

// ---------------------------------------------------------------------------
// Smooth edges
// ---------------------------------------------------------------------------

/// The lower of two bounds.
pub open spec fn lower(a: u32, b: u32) -> u32 {
    if a < b {
        a
    } else {
        b
    }
}

fn lower_of(a: u32, b: u32) -> (r: u32)
    ensures
        r == lower(a, b),
{
    if a < b {
        a
    } else {
        b
    }
}

/// An area without what lies outside a picture.
pub open spec fn cut(area: (u32, u32, u32, u32), img: &RgbaImage) -> (u32, u32, u32, u32) {
    (area.0, area.1, lower(area.2, img.width), lower(area.3, img.height))
}

/// An area that holds a pixel.
pub open spec fn holds_pixels(area: (u32, u32, u32, u32)) -> bool {
    area.0 < area.2 && area.1 < area.3
}

/// A fully transparent picture.
pub open spec fn is_clear(img: &RgbaImage) -> bool {
    forall|x: int, y: int|
        img.inside(x, y) ==> #[trigger] img.at(x, y) == (Rgba { r: 0, g: 0, b: 0, a: 0 })
}

/// `after` is `before` with what was painted at four times the size laid over an area.
pub open spec fn is_smoothed<P: Fn(RgbaImage) -> RgbaImage>(
    before: &RgbaImage,
    after: &RgbaImage,
    area: (u32, u32, u32, u32),
    paint: P,
) -> bool {
    if holds_pixels(area) {
        exists|empty: RgbaImage, fine: RgbaImage|
            #![trigger call_ensures(paint, (empty,), fine)]
            empty.wf() && is_clear(&empty) && empty.width == 4 * (area.2 - area.0) && empty.height
                == 4 * (area.3 - area.1) && call_ensures(paint, (empty,), fine) && forall|
                x: int,
                y: int,
            |
                after.inside(x, y) ==> #[trigger] after.at(x, y) == (if crate::image::in_area(
                    x,
                    y,
                    area.0 as int,
                    area.1 as int,
                    area.2 as int,
                    area.3 as int,
                ) {
                    crate::image::over(
                        before.at(x, y),
                        crate::editor::rasterize::block_mean(&fine, x - area.0, y - area.1),
                    )
                } else {
                    before.at(x, y)
                })
    } else {
        after == before
    }
}

/// Paints on an empty picture of four times the size of an area and lays it over the
/// area, each pixel the mean of its sixteen. What lies outside the canvas is cut off.
pub fn draw_smoothed<P: Fn(RgbaImage) -> RgbaImage>(
    canvas: &mut RgbaImage,
    area: (u32, u32, u32, u32),
    paint: &P,
)
    requires
        old(canvas).wf(),
        crate::editor::flatten::keeps_size(*paint),
        4 * old(canvas).width <= u32::MAX,
        4 * old(canvas).height <= u32::MAX,
        64 * (old(canvas).width * old(canvas).height) <= usize::MAX,
    ensures
        final(canvas).wf(),
        final(canvas).same_size(old(canvas)),
        is_smoothed(old(canvas), final(canvas), cut(area, old(canvas)), *paint),
{
    let (x0, y0) = (area.0, area.1);
    let x1 = lower_of(area.2, canvas.width);
    let y1 = lower_of(area.3, canvas.height);
    if x1 <= x0 || y1 <= y0 {
        return;
    }
    let w: u32 = x1 - x0;
    let h: u32 = y1 - y0;
    assert(4 * ((4 * w) * (4 * h)) <= 64 * (canvas.width * canvas.height)) by (nonlinear_arith)
        requires
            w <= canvas.width,
            h <= canvas.height,
    ;
    let empty = RgbaImage::from_pixel(4 * w, 4 * h, Rgba { r: 0, g: 0, b: 0, a: 0 });
    let ghost ground = empty;
    let fine = paint(empty);
    assert(call_ensures(*paint, (ground,), fine));
    assert(fine.same_size(&ground));
    downsample_over(canvas, &fine, x0, y0);
    assert(is_smoothed(old(canvas), canvas, cut(area, old(canvas)), *paint));
}

// ---------------------------------------------------------------------------
// Softened pieces
// ---------------------------------------------------------------------------

/// `piece` is the part of a picture that lies in an area.
pub open spec fn is_piece(img: &RgbaImage, area: (u32, u32, u32, u32), piece: &RgbaImage) -> bool {
    &&& piece.wf()
    &&& piece.width == area.2 - area.0
    &&& piece.height == area.3 - area.1
    &&& forall|x: int, y: int|
        piece.inside(x, y) ==> #[trigger] piece.at(x, y) == img.at(area.0 + x, area.1 + y)
}

/// `after` is `before` with a softened piece of `base` laid over the area it came from.
pub open spec fn is_blurred<B: Fn(RgbaImage) -> RgbaImage>(
    before: &RgbaImage,
    after: &RgbaImage,
    base: &RgbaImage,
    area: (u32, u32, u32, u32),
    soften: B,
) -> bool {
    if holds_pixels(area) {
        exists|piece: RgbaImage, soft: RgbaImage|
            #![trigger call_ensures(soften, (piece,), soft)]
            is_piece(base, area, &piece) && call_ensures(soften, (piece,), soft) && forall|
                x: int,
                y: int,
            |
                after.inside(x, y) ==> #[trigger] after.at(x, y) == crate::image::drawn_over(
                    before,
                    &soft,
                    area.0 as int,
                    area.1 as int,
                    x,
                    y,
                )
    } else {
        after == before
    }
}

/// Softens the part of the untouched picture that lies in an area and lays it over the
/// canvas there.
pub fn draw_blur<B: Fn(RgbaImage) -> RgbaImage>(
    canvas: &mut RgbaImage,
    base: &RgbaImage,
    area: (u32, u32, u32, u32),
    soften: &B,
)
    requires
        old(canvas).wf(),
        base.wf(),
        crate::editor::flatten::keeps_size(*soften),
    ensures
        final(canvas).wf(),
        final(canvas).same_size(old(canvas)),
        is_blurred(old(canvas), final(canvas), base, cut(area, base), *soften),
{
    let (x0, y0) = (area.0, area.1);
    let x1 = lower_of(area.2, base.width);
    let y1 = lower_of(area.3, base.height);
    if x1 <= x0 || y1 <= y0 {
        return;
    }
    let w: u32 = x1 - x0;
    let h: u32 = y1 - y0;
    assert(base.raw.len() <= usize::MAX);
    assert(4 * (w * h) <= 4 * (base.width * base.height)) by (nonlinear_arith)
        requires
            w <= base.width,
            h <= base.height,
    ;
    let piece = crop(base, x0, y0, w, h);
    let ghost taken = piece;
    assert(is_piece(base, cut(area, base), &taken));
    let soft = soften(piece);
    assert(call_ensures(*soften, (taken,), soft));
    draw_over(canvas, &soft, x0 as i64, y0 as i64);
    assert(is_blurred(old(canvas), canvas, base, cut(area, base), *soften));
}

/// Lays frosted glass under a text box: the untouched picture, softened, without a tint.
pub fn draw_text_frosted<B: Fn(RgbaImage) -> RgbaImage>(
    canvas: &mut RgbaImage,
    base: &RgbaImage,
    area: (u32, u32, u32, u32),
    soften: &B,
)
    requires
        old(canvas).wf(),
        base.wf(),
        crate::editor::flatten::keeps_size(*soften),
    ensures
        final(canvas).wf(),
        final(canvas).same_size(old(canvas)),
        is_blurred(old(canvas), final(canvas), base, cut(area, base), *soften),
{
    draw_blur(canvas, base, area, soften)
}

/// How far the shadow of a text box reaches beyond it.
pub const SHADOW_PAD: u32 = 24;

/// How dark that shadow is before it is softened.
pub const SHADOW_ALPHA: u8 = 110;

/// `layer` is the shadow of a text box of `w` x `h` pixels, before it is softened.
pub open spec fn is_box_shadow(layer: &RgbaImage, w: int, h: int) -> bool {
    &&& layer.wf()
    &&& layer.width == w + 2 * SHADOW_PAD
    &&& layer.height == h + 2 * SHADOW_PAD
    &&& forall|x: int, y: int|
        layer.inside(x, y) ==> #[trigger] layer.at(x, y) == (if crate::image::in_area(
            x,
            y,
            SHADOW_PAD as int,
            SHADOW_PAD as int,
            SHADOW_PAD + w,
            SHADOW_PAD + h,
        ) {
            Rgba { r: 0, g: 0, b: 0, a: SHADOW_ALPHA }
        } else {
            Rgba { r: 0, g: 0, b: 0, a: 0 }
        })
}

/// `after` is `before` with the softened shadow of a text box on it.
pub open spec fn is_shaded<B: Fn(RgbaImage) -> RgbaImage>(
    before: &RgbaImage,
    after: &RgbaImage,
    size: (i32, i32),
    corner: (i32, i32),
    soften: B,
) -> bool {
    if size.0 > 0 && size.1 > 0 {
        exists|layer: RgbaImage, soft: RgbaImage|
            #![trigger call_ensures(soften, (layer,), soft)]
            is_box_shadow(&layer, size.0 as int, size.1 as int) && call_ensures(
                soften,
                (layer,),
                soft,
            ) && forall|x: int, y: int|
                after.inside(x, y) ==> #[trigger] after.at(x, y) == crate::image::drawn_over(
                    before,
                    &soft,
                    corner.0 as int,
                    corner.1 as int,
                    x,
                    y,
                )
    } else {
        after == before
    }
}

/// Lays the shadow of a text box on the canvas, with the upper left corner of the padded
/// shadow at `corner`. A box without an inside casts none.
pub fn draw_text_shadow<B: Fn(RgbaImage) -> RgbaImage>(
    canvas: &mut RgbaImage,
    size: (i32, i32),
    corner: (i32, i32),
    soften: &B,
)
    requires
        old(canvas).wf(),
        crate::editor::flatten::keeps_size(*soften),
        size.0 + 2 * SHADOW_PAD <= i32::MAX,
        size.1 + 2 * SHADOW_PAD <= i32::MAX,
        size.0 > 0 && size.1 > 0 ==> 4 * ((size.0 + 2 * SHADOW_PAD) * (size.1 + 2 * SHADOW_PAD))
            <= usize::MAX,
    ensures
        final(canvas).wf(),
        final(canvas).same_size(old(canvas)),
        is_shaded(old(canvas), final(canvas), size, corner, *soften),
{
    if size.0 <= 0 || size.1 <= 0 {
        return;
    }
    let w: u32 = size.0 as u32;
    let h: u32 = size.1 as u32;
    let mut layer = RgbaImage::from_pixel(
        w + 2 * SHADOW_PAD,
        h + 2 * SHADOW_PAD,
        Rgba { r: 0, g: 0, b: 0, a: 0 },
    );
    let dark = Rgba { r: 0, g: 0, b: 0, a: SHADOW_ALPHA };
    fill_area(&mut layer, SHADOW_PAD, SHADOW_PAD, SHADOW_PAD + w, SHADOW_PAD + h, dark);
    let ghost hard = layer;
    assert(is_box_shadow(&hard, size.0 as int, size.1 as int));
    let soft = soften(layer);
    assert(call_ensures(*soften, (hard,), soft));
    draw_over(canvas, &soft, corner.0 as i64, corner.1 as i64);
    assert(is_shaded(old(canvas), canvas, size, corner, *soften));
}

// ---------------------------------------------------------------------------
// Shapes, loupes, stamps
// ---------------------------------------------------------------------------

/// `after` is `before` with a shape: its inside, unless that has no colour, and then
/// its outline.
pub open spec fn is_shaped<F: Fn(u32, u32) -> bool, S: Fn(RgbaImage) -> RgbaImage>(
    before: &RgbaImage,
    after: &RgbaImage,
    area: (u32, u32, u32, u32),
    covers: F,
    fill: Rgba,
    outline: S,
) -> bool {
    exists|filled: RgbaImage|
        #![trigger call_ensures(outline, (filled,), *after)]
        filled.wf() && filled.same_size(before) && (if fill.a > 0 {
            crate::editor::flatten::is_filled(before, &filled, covers, area, fill)
        } else {
            filled == before
        }) && call_ensures(outline, (filled,), *after)
}

/// Paints the inside of a shape, unless that has no colour, and then its outline.
pub fn draw_shape<F: Fn(u32, u32) -> bool, S: Fn(RgbaImage) -> RgbaImage>(
    canvas: RgbaImage,
    area: (u32, u32, u32, u32),
    covers: &F,
    fill: Rgba,
    outline: &S,
) -> (r: RgbaImage)
    requires
        canvas.wf(),
        forall|x: u32, y: u32| #[trigger] call_requires(*covers, (x, y)),
        crate::editor::flatten::keeps_size(*outline),
    ensures
        r.wf(),
        r.same_size(&canvas),
        is_shaped(&canvas, &r, area, *covers, fill, *outline),
{
    let mut filled = canvas;
    if fill.a > 0 {
        fill_where(&mut filled, area, covers, fill);
    }
    let ghost inside = filled;
    let out = outline(filled);
    assert(call_ensures(*outline, (inside,), out));
    out
}

/// `after` is `before` with a loupe: the pixels that it shows, and its frame, if that
/// has a colour and a width.
pub open spec fn is_magnified<F: Fn(u32, u32) -> Option<(u32, u32)>, S: Fn(RgbaImage) -> RgbaImage>(
    before: &RgbaImage,
    after: &RgbaImage,
    base: &RgbaImage,
    area: (u32, u32, u32, u32),
    source: F,
    border: Rgba,
    wide: bool,
    frame: S,
) -> bool {
    exists|shown: RgbaImage|
        #![trigger crate::editor::flatten::is_sampled(before, &shown, base, source, area)]
        shown.wf() && shown.same_size(before) && crate::editor::flatten::is_sampled(
            before,
            &shown,
            base,
            source,
            area,
        ) && (if border.a > 0 && wide {
            call_ensures(frame, (shown,), *after)
        } else {
            after == shown
        })
}

/// Paints a loupe. It shows pixels of the untouched picture. One whose boxes are too
/// small to show any is left out.
pub fn draw_magnify<F: Fn(u32, u32) -> Option<(u32, u32)>, S: Fn(RgbaImage) -> RgbaImage>(
    canvas: RgbaImage,
    base: &RgbaImage,
    large: bool,
    area: (u32, u32, u32, u32),
    source: &F,
    border: Rgba,
    wide: bool,
    frame: &S,
) -> (r: RgbaImage)
    requires
        canvas.wf(),
        base.wf(),
        forall|x: u32, y: u32| #[trigger] call_requires(*source, (x, y)),
        crate::editor::flatten::keeps_size(*frame),
    ensures
        r.wf(),
        r.same_size(&canvas),
        if large {
            is_magnified(&canvas, &r, base, area, *source, border, wide, *frame)
        } else {
            r == canvas
        },
{
    if !large {
        return canvas;
    }
    let mut shown = canvas;
    sample_where(&mut shown, base, area, source);
    let ghost inside = shown;
    assert(crate::editor::flatten::is_sampled(&canvas, &inside, base, *source, area));
    if border.a > 0 && wide {
        frame(shown)
    } else {
        shown
    }
}

/// `after` is `before` with a stamp on it. A stamp without a picture is left out.
pub open spec fn is_stamped<F: Fn(u32, u32, u32, u32) -> Option<(u32, u32)>>(
    before: &RgbaImage,
    after: &RgbaImage,
    picture: Option<(u32, u32, Seq<u8>)>,
    area: (u32, u32, u32, u32),
    source: F,
) -> bool {
    match picture {
        None => after == before,
        Some((w, h, raw)) => exists|p: RgbaImage|
            #![trigger p.wf()]
            p.wf() && p.width == w && p.height == h && p.raw@ == raw
                && crate::editor::flatten::is_laid(before, after, &p, source, area),
    }
}

/// Paints a stamp, scaled into an area.
pub fn draw_stamp<F: Fn(u32, u32, u32, u32) -> Option<(u32, u32)>>(
    canvas: &mut RgbaImage,
    stamp: &StampSource,
    assets: &[Vec<u8>],
    area: (u32, u32, u32, u32),
    source: &F,
)
    requires
        old(canvas).wf(),
        assets@.len() == BUILTIN_COUNT,
        forall|w: u32, h: u32, x: u32, y: u32| #[trigger] call_requires(*source, (w, h, x, y)),
    ensures
        final(canvas).wf(),
        final(canvas).same_size(old(canvas)),
        is_stamped(
            old(canvas),
            final(canvas),
            crate::editor::tools::stamp::picture_of(stamp@, assets@),
            area,
            *source,
        ),
{
    if let Ok(picture) = resolve(stamp, assets) {
        lay_picture(canvas, &picture, area, source);
        assert(picture.wf());
    }
}

// ---------------------------------------------------------------------------
// Banners
// ---------------------------------------------------------------------------

/// `after` came out of `before` by writing these lines, the first one first. The writer
/// was told the number of each line.
pub open spec fn is_written<W: Fn(RgbaImage, &String, usize) -> RgbaImage>(
    before: RgbaImage,
    after: RgbaImage,
    lines: Seq<String>,
    write: W,
) -> bool
    decreases lines.len(),
{
    if lines.len() == 0 {
        after == before
    } else {
        exists|mid: RgbaImage|
            #![trigger call_ensures(
                write,
                (mid, &lines.last(), (lines.len() - 1) as usize),
                after,
            )]
            is_written(before, mid, lines.drop_last(), write) && call_ensures(
                write,
                (mid, &lines.last(), (lines.len() - 1) as usize),
                after,
            )
    }
}

/// A function that can write any line on any picture and leaves its size.
pub open spec fn is_writer<W: Fn(RgbaImage, &String, usize) -> RgbaImage>(write: W) -> bool {
    &&& forall|c: RgbaImage, s: String, i: usize|
        c.wf() ==> #[trigger] call_requires(write, (c, &s, i))
    &&& forall|c: RgbaImage, s: String, i: usize, d: RgbaImage| #[trigger]
        call_ensures(write, (c, &s, i), d) && c.wf() ==> d.wf() && d.same_size(&c)
}

/// `after` is `before` with a banner: its ground over the area that was measured for its
/// lines, and the lines on it.
pub open spec fn is_bannered<
    M: Fn(&Vec<String>) -> (u32, u32, u32, u32),
    W: Fn(RgbaImage, &String, usize) -> RgbaImage,
>(
    before: &RgbaImage,
    after: &RgbaImage,
    texts: Seq<Seq<char>>,
    fill: Rgba,
    measure: M,
    write: W,
) -> bool {
    if texts.len() == 0 {
        after == before
    } else {
        exists|lines: Vec<String>, area: (u32, u32, u32, u32), ground: RgbaImage|
            #![trigger call_ensures(measure, (&lines,), area), is_written(ground, *after, lines@, write)]
            crate::text::strings(lines@) == texts && call_ensures(measure, (&lines,), area)
                && ground.wf() && ground.same_size(before) && (forall|x: int, y: int|
                ground.inside(x, y) ==> #[trigger] ground.at(x, y) == (if crate::image::in_area(
                    x,
                    y,
                    area.0 as int,
                    area.1 as int,
                    area.2 as int,
                    area.3 as int,
                ) {
                    crate::image::over(before.at(x, y), fill)
                } else {
                    before.at(x, y)
                })) && is_written(ground, *after, lines@, write)
    }
}

/// Paints the banner with what is known about the capture. Without anything to say it
/// is left out.
pub fn draw_capture_info<
    M: Fn(&Vec<String>) -> (u32, u32, u32, u32),
    W: Fn(RgbaImage, &String, usize) -> RgbaImage,
>(
    canvas: RgbaImage,
    metadata: Option<&CaptureMetadata>,
    fields: &Vec<FieldKind>,
    fill: Rgba,
    measure: &M,
    write: &W,
) -> (r: RgbaImage)
    requires
        canvas.wf(),
        metadata matches Some(m) ==> m.captured_at.wf(),
        forall|lines: Vec<String>| #[trigger] call_requires(*measure, (&lines,)),
        is_writer(*write),
    ensures
        r.wf(),
        r.same_size(&canvas),
        is_bannered(
            &canvas,
            &r,
            match metadata {
                Some(m) => crate::editor::rasterize::info_lines(m@, fields@),
                None => Seq::empty(),
            },
            fill,
            *measure,
            *write,
        ),
{
    let lines = capture_info_lines(metadata, fields);
    if lines.len() == 0 {
        return canvas;
    }
    let area = measure(&lines);
    let mut out = canvas;
    blend_area(&mut out, area.0, area.1, area.2, area.3, fill);
    let ghost ground = out;
    let mut i: usize = 0;
    assert(lines@.take(0) =~= Seq::empty());
    while i < lines.len()
        invariant
            i <= lines@.len(),
            is_writer(*write),
            ground.wf(),
            out.wf(),
            out.same_size(&ground),
            is_written(ground, out, lines@.take(i as int), *write),
        decreases lines@.len() - i,
    {
        let ghost mid = out;
        out = write(out, &lines[i], i);
        proof {
            let upto = lines@.take(i + 1);
            assert(upto.drop_last() =~= lines@.take(i as int));
            assert(upto.last() == lines@[i as int]);
            assert((upto.len() - 1) as usize == i);
            assert(call_ensures(*write, (mid, &upto.last(), (upto.len() - 1) as usize), out));
        }
        i += 1;
    }
    assert(lines@.take(i as int) =~= lines@);
    assert(call_ensures(*measure, (&lines,), area));
    assert(is_written(ground, out, lines@, *write));
    out
}

// ---------------------------------------------------------------------------
// Arrows
// ---------------------------------------------------------------------------

/// One stroke of an arrow, either of its shadow or of itself.
#[derive(Debug, Clone, Copy, PartialEq, Eq, Structural)]
pub enum ArrowStroke {
    Shaft { shadow: bool },
    /// The head at the end.
    EndHead { shadow: bool },
    /// The head at the start, which is always filled.
    StartHead { shadow: bool },
}

/// The strokes of an arrow or of its shadow.
pub open spec fn strokes_of(head: ArrowHeadStyle, shadow: bool) -> Seq<ArrowStroke> {
    let shaft = seq![ArrowStroke::Shaft { shadow }];
    match head {
        ArrowHeadStyle::NoHead => shaft,
        ArrowHeadStyle::DoubleEnded => shaft.push(ArrowStroke::EndHead { shadow }).push(
            ArrowStroke::StartHead { shadow },
        ),
        _ => shaft.push(ArrowStroke::EndHead { shadow }),
    }
}

/// The strokes of an arrow in the order in which they are painted: the shadow first.
pub open spec fn arrow_strokes(head: ArrowHeadStyle, shadow: bool) -> Seq<ArrowStroke> {
    if shadow {
        strokes_of(head, true) + strokes_of(head, false)
    } else {
        strokes_of(head, false)
    }
}

fn push_strokes(out: &mut Vec<ArrowStroke>, head: ArrowHeadStyle, shadow: bool)
    ensures
        final(out)@ == old(out)@ + strokes_of(head, shadow),
{
    out.push(ArrowStroke::Shaft { shadow });
    if head != ArrowHeadStyle::NoHead {
        out.push(ArrowStroke::EndHead { shadow });
    }
    if head == ArrowHeadStyle::DoubleEnded {
        out.push(ArrowStroke::StartHead { shadow });
    }
    assert(out@ =~= old(out)@ + strokes_of(head, shadow));
}

/// The strokes of an arrow in the order in which they are painted.
pub fn draw_arrow(head: ArrowHeadStyle, shadow: bool) -> (r: Vec<ArrowStroke>)
    ensures
        r@ == arrow_strokes(head, shadow),
{
    let mut out: Vec<ArrowStroke> = Vec::new();
    if shadow {
        push_strokes(&mut out, head, true);
    }
    push_strokes(&mut out, head, false);
    assert(out@ =~= arrow_strokes(head, shadow));
    out
}

/// Whether the shaft stops short of its start and of its end, so that it does not show
/// through a head.
pub open spec fn trims_of(head: ArrowHeadStyle) -> (bool, bool) {
    (
        head == ArrowHeadStyle::DoubleEnded,
        head == ArrowHeadStyle::FilledTriangle || head == ArrowHeadStyle::OutlineTriangle || head
            == ArrowHeadStyle::DoubleEnded,
    )
}

/// Whether the shaft stops short of its start and of its end.
pub fn shaft_trims(head: ArrowHeadStyle) -> (r: (bool, bool))
    ensures
        r == trims_of(head),
{
    match head {
        ArrowHeadStyle::DoubleEnded => (true, true),
        ArrowHeadStyle::FilledTriangle | ArrowHeadStyle::OutlineTriangle => (false, true),
        ArrowHeadStyle::LineOnly | ArrowHeadStyle::NoHead => (false, false),
    }
}

// ---------------------------------------------------------------------------
// Laws
// ---------------------------------------------------------------------------

/// Every stroke of the shadow of an arrow lies below every stroke of the arrow itself.
pub proof fn law_shadows_lie_below(head: ArrowHeadStyle, shadow: bool, i: int, j: int)
    requires
        0 <= i < arrow_strokes(head, shadow).len(),
        0 <= j < arrow_strokes(head, shadow).len(),
        is_shadow_stroke(arrow_strokes(head, shadow)[i]),
        !is_shadow_stroke(arrow_strokes(head, shadow)[j]),
    ensures
        i < j,
{
}

pub open spec fn is_shadow_stroke(s: ArrowStroke) -> bool {
    match s {
        ArrowStroke::Shaft { shadow } => shadow,
        ArrowStroke::EndHead { shadow } => shadow,
        ArrowStroke::StartHead { shadow } => shadow,
    }
}

/// A shaft stops short of an end only where a head is painted.
pub proof fn law_trims_need_a_head(head: ArrowHeadStyle)
    ensures
        trims_of(head).0 ==> strokes_of(head, false).contains(
            ArrowStroke::StartHead { shadow: false },
        ),
        trims_of(head).1 ==> strokes_of(head, false).contains(
            ArrowStroke::EndHead { shadow: false },
        ),
{
    let s = strokes_of(head, false);
    if trims_of(head).0 {
        assert(s[2] == ArrowStroke::StartHead { shadow: false });
    }
    if trims_of(head).1 {
        assert(s[1] == ArrowStroke::EndHead { shadow: false });
    }
}

/// A blurred region changes nothing outside its area.
pub proof fn law_blur_stays_in_its_area<B: Fn(RgbaImage) -> RgbaImage>(
    before: &RgbaImage,
    after: &RgbaImage,
    base: &RgbaImage,
    area: (u32, u32, u32, u32),
    soften: B,
    x: int,
    y: int,
)
    requires
        is_blurred(before, after, base, area, soften),
        crate::editor::flatten::keeps_size(soften),
        after.same_size(before),
        after.inside(x, y),
        !crate::image::in_area(
            x,
            y,
            area.0 as int,
            area.1 as int,
            area.2 as int,
            area.3 as int,
        ),
    ensures
        after.at(x, y) == before.at(x, y),
{
}

/// The painter paints the body of this annotation as a loupe without a frame.
pub open spec fn paints_loupe<
    P: Fn(
        RgbaImage,
        &RgbaImage,
        &crate::editor::document::AnnotationNode,
        crate::editor::flatten::Part,
    ) -> RgbaImage,
    F: Fn(u32, u32) -> Option<(u32, u32)>,
    S: Fn(RgbaImage) -> RgbaImage,
>(
    paint: P,
    base: RgbaImage,
    node: crate::editor::document::AnnotationNode,
    area: (u32, u32, u32, u32),
    source: F,
    border: Rgba,
    wide: bool,
    frame: S,
) -> bool {
    &&& node@ is Magnify
    &&& border.a == 0 || !wide
    &&& forall|c: RgbaImage, r: RgbaImage| #[trigger]
        call_ensures(paint, (c, &base, &node, crate::editor::flatten::Part::Body), r)
            ==> is_magnified(&c, &r, &base, area, source, border, wide, frame)
}

/// Whether every pixel of a picture is opaque.
pub open spec fn is_opaque(img: &RgbaImage) -> bool {
    forall|x: int, y: int| img.inside(x, y) ==> (#[trigger] img.at(x, y)).a == 255
}

/// What a loupe shows at a pixel: the opaque pixel that it takes, and where it takes
/// none the pixel below.
pub open spec fn pixel_shown<F: Fn(u32, u32) -> Option<(u32, u32)>>(
    below: Rgba,
    after: Rgba,
    base: &RgbaImage,
    source: F,
    area: (u32, u32, u32, u32),
    x: int,
    y: int,
) -> bool {
    if crate::image::in_area(
        x,
        y,
        area.0 as int,
        area.1 as int,
        area.2 as int,
        area.3 as int,
    ) {
        exists|at: Option<(u32, u32)>|
            #![trigger call_ensures(source, (x as u32, y as u32), at)]
            call_ensures(source, (x as u32, y as u32), at) && after == match
                crate::editor::flatten::taken(base, at) {
                Some(c) => c,
                None => below,
            }
    } else {
        after == below
    }
}

/// In a document on an opaque picture whose topmost annotation is a loupe without a
/// frame, the loupe shows pixels of the untouched picture, whatever annotations lie
/// below it. Outside its area, and where it takes no pixel, the document is as the
/// annotations below leave it.
pub proof fn law_loupe_shows_the_untouched_picture<
    P: Fn(
        RgbaImage,
        &RgbaImage,
        &crate::editor::document::AnnotationNode,
        crate::editor::flatten::Part,
    ) -> RgbaImage,
    F: Fn(u32, u32) -> Option<(u32, u32)>,
    S: Fn(RgbaImage) -> RgbaImage,
>(
    paint: P,
    base: RgbaImage,
    nodes: Seq<crate::editor::document::AnnotationNode>,
    copy: RgbaImage,
    after: RgbaImage,
    area: (u32, u32, u32, u32),
    source: F,
    border: Rgba,
    wide: bool,
    frame: S,
)
    requires
        is_opaque(&base),
        nodes.len() > 0,
        paints_loupe(paint, base, nodes.last(), area, source, border, wide, frame),
        crate::editor::flatten::painted(paint, base, nodes, copy, after),
    ensures
        exists|below: RgbaImage| #[trigger]
            crate::editor::flatten::painted(paint, base, nodes.drop_last(), copy, below)
                && after.same_size(&below) && (forall|x: int, y: int|
                after.inside(x, y) ==> pixel_shown(
                    below.at(x, y),
                    #[trigger] after.at(x, y),
                    &base,
                    source,
                    area,
                    x,
                    y,
                )),
{
    let node = nodes.last();
    let steps = crate::editor::flatten::parts_of(node@);
    let below = choose|mid: RgbaImage|
        crate::editor::flatten::painted(paint, base, nodes.drop_last(), copy, mid)
            && #[trigger] crate::editor::flatten::parts_painted(
            paint,
            base,
            node,
            steps,
            mid,
            after,
        );
    let body = crate::editor::flatten::Part::Body;
    assert(steps =~= seq![body]);
    assert(steps.drop_last() =~= Seq::empty());
    let mid = choose|mid: RgbaImage|
        #![trigger call_ensures(paint, (mid, &base, &node, steps.last()), after)]
        crate::editor::flatten::parts_painted(paint, base, node, steps.drop_last(), below, mid)
            && call_ensures(paint, (mid, &base, &node, steps.last()), after);
    assert(crate::editor::flatten::parts_painted(
        paint,
        base,
        node,
        steps.drop_last(),
        below,
        mid,
    ));
    assert(mid == below);
    assert(call_ensures(paint, (below, &base, &node, body), after));
    assert(is_magnified(&below, &after, &base, area, source, border, wide, frame));
    assert(crate::editor::flatten::is_sampled(&below, &after, &base, source, area));
    assert forall|x: int, y: int| after.inside(x, y) implies pixel_shown(
        below.at(x, y),
        #[trigger] after.at(x, y),
        &base,
        source,
        area,
        x,
        y,
    ) by {
        if crate::image::in_area(
            x,
            y,
            area.0 as int,
            area.1 as int,
            area.2 as int,
            area.3 as int,
        ) {
            let at = choose|at: Option<(u32, u32)>|
                #![trigger call_ensures(source, (x as u32, y as u32), at)]
                call_ensures(source, (x as u32, y as u32), at) && after.at(x, y)
                    == crate::editor::flatten::blended(
                    below.at(x, y),
                    crate::editor::flatten::taken(&base, at),
                );
            assert(call_ensures(source, (x as u32, y as u32), at));
            match crate::editor::flatten::taken(&base, at) {
                Some(c) => {
                    crate::image::law_blend_extremes(below.at(x, y), c);
                },
                None => {},
            }
        }
    }
}

/// Two documents on one opaque picture that end in the same loupe without a frame agree
/// wherever the loupe shows a pixel, however much the annotations below it differ.
pub proof fn law_loupe_hides_what_lies_below<
    P: Fn(
        RgbaImage,
        &RgbaImage,
        &crate::editor::document::AnnotationNode,
        crate::editor::flatten::Part,
    ) -> RgbaImage,
    F: Fn(u32, u32) -> Option<(u32, u32)>,
    S: Fn(RgbaImage) -> RgbaImage,
>(
    paint: P,
    base: RgbaImage,
    one: Seq<crate::editor::document::AnnotationNode>,
    other: Seq<crate::editor::document::AnnotationNode>,
    copy: RgbaImage,
    first: RgbaImage,
    second: RgbaImage,
    area: (u32, u32, u32, u32),
    source: F,
    border: Rgba,
    wide: bool,
    frame: S,
    x: int,
    y: int,
    at: Option<(u32, u32)>,
)
    requires
        is_opaque(&base),
        one.len() > 0,
        other.len() > 0,
        one.last() == other.last(),
        paints_loupe(paint, base, one.last(), area, source, border, wide, frame),
        crate::editor::flatten::painted(paint, base, one, copy, first),
        crate::editor::flatten::painted(paint, base, other, copy, second),
        first.inside(x, y),
        second.inside(x, y),
        crate::image::in_area(
            x,
            y,
            area.0 as int,
            area.1 as int,
            area.2 as int,
            area.3 as int,
        ),
        forall|place: Option<(u32, u32)>| #[trigger]
            call_ensures(source, (x as u32, y as u32), place) ==> place == at,
        crate::editor::flatten::taken(&base, at) is Some,
    ensures
        first.at(x, y) == second.at(x, y),
        Some(first.at(x, y)) == crate::editor::flatten::taken(&base, at),
{
    law_loupe_shows_the_untouched_picture(
        paint,
        base,
        one,
        copy,
        first,
        area,
        source,
        border,
        wide,
        frame,
    );
    law_loupe_shows_the_untouched_picture(
        paint,
        base,
        other,
        copy,
        second,
        area,
        source,
        border,
        wide,
        frame,
    );
}

/// A painter that paints alike on equal pictures.
pub open spec fn paints_alike<
    P: Fn(
        RgbaImage,
        &RgbaImage,
        &crate::editor::document::AnnotationNode,
        crate::editor::flatten::Part,
    ) -> RgbaImage,
>(paint: P, base: RgbaImage) -> bool {
    forall|
        c: RgbaImage,
        d: RgbaImage,
        n: crate::editor::document::AnnotationNode,
        p: crate::editor::flatten::Part,
        r: RgbaImage,
        s: RgbaImage,
    |
        #![trigger call_ensures(paint, (c, &base, &n, p), r), call_ensures(paint, (d, &base, &n, p), s)]
        call_ensures(paint, (c, &base, &n, p), r) && call_ensures(paint, (d, &base, &n, p), s)
            && crate::editor::flatten::same_picture(&c, &d)
            ==> crate::editor::flatten::same_picture(&r, &s)
}

proof fn lemma_parts_alike<
    P: Fn(
        RgbaImage,
        &RgbaImage,
        &crate::editor::document::AnnotationNode,
        crate::editor::flatten::Part,
    ) -> RgbaImage,
>(
    paint: P,
    base: RgbaImage,
    node: crate::editor::document::AnnotationNode,
    steps: Seq<crate::editor::flatten::Part>,
    before: RgbaImage,
    other: RgbaImage,
    after: RgbaImage,
    end: RgbaImage,
)
    requires
        paints_alike(paint, base),
        crate::editor::flatten::same_picture(&before, &other),
        crate::editor::flatten::parts_painted(paint, base, node, steps, before, after),
        crate::editor::flatten::parts_painted(paint, base, node, steps, other, end),
    ensures
        crate::editor::flatten::same_picture(&after, &end),
    decreases steps.len(),
{
    if steps.len() > 0 {
        let less = steps.drop_last();
        let a = choose|mid: RgbaImage|
            #![trigger call_ensures(paint, (mid, &base, &node, steps.last()), after)]
            crate::editor::flatten::parts_painted(paint, base, node, less, before, mid)
                && call_ensures(paint, (mid, &base, &node, steps.last()), after);
        let b = choose|mid: RgbaImage|
            #![trigger call_ensures(paint, (mid, &base, &node, steps.last()), end)]
            crate::editor::flatten::parts_painted(paint, base, node, less, other, mid)
                && call_ensures(paint, (mid, &base, &node, steps.last()), end);
        assert(call_ensures(paint, (a, &base, &node, steps.last()), after));
        assert(call_ensures(paint, (b, &base, &node, steps.last()), end));
        lemma_parts_alike(paint, base, node, less, before, other, a, b);
    }
}

proof fn lemma_painted_alike<
    P: Fn(
        RgbaImage,
        &RgbaImage,
        &crate::editor::document::AnnotationNode,
        crate::editor::flatten::Part,
    ) -> RgbaImage,
>(
    paint: P,
    base: RgbaImage,
    nodes: Seq<crate::editor::document::AnnotationNode>,
    before: RgbaImage,
    other: RgbaImage,
    after: RgbaImage,
    end: RgbaImage,
)
    requires
        paints_alike(paint, base),
        crate::editor::flatten::same_picture(&before, &other),
        crate::editor::flatten::painted(paint, base, nodes, before, after),
        crate::editor::flatten::painted(paint, base, nodes, other, end),
    ensures
        crate::editor::flatten::same_picture(&after, &end),
    decreases nodes.len(),
{
    if nodes.len() > 0 {
        let less = nodes.drop_last();
        let steps = crate::editor::flatten::parts_of(nodes.last()@);
        let a = choose|mid: RgbaImage|
            crate::editor::flatten::painted(paint, base, less, before, mid)
                && #[trigger] crate::editor::flatten::parts_painted(
                paint,
                base,
                nodes.last(),
                steps,
                mid,
                after,
            );
        let b = choose|mid: RgbaImage|
            crate::editor::flatten::painted(paint, base, less, other, mid)
                && #[trigger] crate::editor::flatten::parts_painted(
                paint,
                base,
                nodes.last(),
                steps,
                mid,
                end,
            );
        lemma_painted_alike(paint, base, less, before, other, a, b);
        lemma_parts_alike(paint, base, nodes.last(), steps, a, b, after, end);
    }
}

/// A loupe covers a pixel of its area if it takes a pixel of the picture for it.
pub open spec fn loupe_covers<F: Fn(u32, u32) -> Option<(u32, u32)>>(
    base: &RgbaImage,
    source: F,
    area: (u32, u32, u32, u32),
    x: int,
    y: int,
) -> bool {
    &&& crate::image::in_area(
        x,
        y,
        area.0 as int,
        area.1 as int,
        area.2 as int,
        area.3 as int,
    )
    &&& exists|at: Option<(u32, u32)>| #[trigger]
        call_ensures(source, (x as u32, y as u32), at) && crate::editor::flatten::taken(base, at)
            is Some
}

/// A loupe asks for the same pixel whenever it is asked about a place.
pub open spec fn takes_alike<F: Fn(u32, u32) -> Option<(u32, u32)>>(source: F) -> bool {
    forall|x: u32, y: u32, a: Option<(u32, u32)>, b: Option<(u32, u32)>|
        #![trigger call_ensures(source, (x, y), a), call_ensures(source, (x, y), b)]
        call_ensures(source, (x, y), a) && call_ensures(source, (x, y), b) ==> a == b
}

/// Three documents on one opaque picture: one of the annotations `nodes` with a loupe
/// without a frame on top, one of the loupe alone, and one of `nodes` alone. Flattened,
/// the first equals the second wherever the loupe covers a pixel, and the third
/// everywhere else; all have the size of the picture.
pub proof fn law_flattened_loupe<
    P: Fn(
        RgbaImage,
        &RgbaImage,
        &crate::editor::document::AnnotationNode,
        crate::editor::flatten::Part,
    ) -> RgbaImage,
    F: Fn(u32, u32) -> Option<(u32, u32)>,
    S: Fn(RgbaImage) -> RgbaImage,
>(
    paint: P,
    base: RgbaImage,
    nodes: Seq<crate::editor::document::AnnotationNode>,
    loupe: crate::editor::document::AnnotationNode,
    both: RgbaImage,
    alone: RgbaImage,
    below: RgbaImage,
    area: (u32, u32, u32, u32),
    source: F,
    border: Rgba,
    wide: bool,
    frame: S,
)
    requires
        is_opaque(&base),
        paints_alike(paint, base),
        takes_alike(source),
        paints_loupe(paint, base, loupe, area, source, border, wide, frame),
        crate::editor::flatten::is_flattened(paint, base, nodes.push(loupe), both),
        crate::editor::flatten::is_flattened(paint, base, seq![loupe], alone),
        crate::editor::flatten::is_flattened(paint, base, nodes, below),
        both.same_size(&base),
        alone.same_size(&base),
        below.same_size(&base),
    ensures
        forall|x: int, y: int|
            both.inside(x, y) ==> #[trigger] both.at(x, y) == (if loupe_covers(
                &base,
                source,
                area,
                x,
                y,
            ) {
                alone.at(x, y)
            } else {
                below.at(x, y)
            }),
{
    let with = nodes.push(loupe);
    let only = seq![loupe];
    let c1 = choose|copy: RgbaImage|
        crate::editor::flatten::same_picture(&copy, &base)
            && #[trigger] crate::editor::flatten::painted(paint, base, with, copy, both);
    let c2 = choose|copy: RgbaImage|
        crate::editor::flatten::same_picture(&copy, &base)
            && #[trigger] crate::editor::flatten::painted(paint, base, only, copy, alone);
    let c3 = choose|copy: RgbaImage|
        crate::editor::flatten::same_picture(&copy, &base)
            && #[trigger] crate::editor::flatten::painted(paint, base, nodes, copy, below);
    assert(with.drop_last() =~= nodes);
    assert(with.last() == loupe && only.last() == loupe);
    law_loupe_shows_the_untouched_picture(
        paint,
        base,
        with,
        c1,
        both,
        area,
        source,
        border,
        wide,
        frame,
    );
    law_loupe_shows_the_untouched_picture(
        paint,
        base,
        only,
        c2,
        alone,
        area,
        source,
        border,
        wide,
        frame,
    );
    let under = choose|under: RgbaImage| #[trigger]
        crate::editor::flatten::painted(paint, base, nodes, c1, under) && both.same_size(&under)
            && (forall|x: int, y: int|
            both.inside(x, y) ==> pixel_shown(
                under.at(x, y),
                #[trigger] both.at(x, y),
                &base,
                source,
                area,
                x,
                y,
            ));
    lemma_painted_alike(paint, base, nodes, c1, c3, under, below);
    assert forall|x: int, y: int| both.inside(x, y) implies #[trigger] both.at(x, y) == (
    if loupe_covers(&base, source, area, x, y) {
        alone.at(x, y)
    } else {
        below.at(x, y)
    }) by {
        assert(under.at(x, y) == below.at(x, y));
        assert(alone.inside(x, y));
        let rgba = alone.at(x, y);
        assert(pixel_shown(under.at(x, y), both.at(x, y), &base, source, area, x, y));
    }
}

/// An area cut to a picture holds those of its pixels that the picture has, and
/// it holds pixels exactly if its first one is among them.
pub proof fn law_cut_areas_hold_what_is_there(
    area: (u32, u32, u32, u32),
    img: &RgbaImage,
    x: int,
    y: int,
)
    requires
        0 <= x,
        0 <= y,
    ensures
        ({
            let c = cut(area, img);
            &&& crate::image::in_area(x, y, c.0 as int, c.1 as int, c.2 as int, c.3 as int)
                <==> img.inside(x, y) && area.0 <= x && x < area.2 && area.1 <= y && y < area.3
            &&& holds_pixels(c) <==> area.0 < area.2 && area.1 < area.3 && area.0 < img.width
                && area.1 < img.height
            &&& c.0 == area.0 && c.1 == area.1
        }),
{
}

/// A blur that softens nothing shows the untouched picture in its area, however
/// much lies on it: what is blurred is what was captured, pixel on pixel.
pub proof fn law_blur_shows_the_untouched_picture<B: Fn(RgbaImage) -> RgbaImage>(
    before: &RgbaImage,
    after: &RgbaImage,
    base: &RgbaImage,
    area: (u32, u32, u32, u32),
    soften: B,
    x: int,
    y: int,
)
    requires
        is_blurred(before, after, base, area, soften),
        forall|c: RgbaImage, d: RgbaImage| #[trigger] call_ensures(soften, (c,), d) ==> d == c,
        is_opaque(base),
        area.2 <= base.width,
        area.3 <= base.height,
        after.inside(x, y),
        area.0 <= x < area.2,
        area.1 <= y < area.3,
    ensures
        after.at(x, y) == base.at(x, y),
{
    let (piece, soft) = choose|piece: RgbaImage, soft: RgbaImage|
        #![trigger call_ensures(soften, (piece,), soft)]
        is_piece(base, area, &piece) && call_ensures(soften, (piece,), soft) && forall|
            x: int,
            y: int,
        |
            after.inside(x, y) ==> #[trigger] after.at(x, y) == crate::image::drawn_over(
                before,
                &soft,
                area.0 as int,
                area.1 as int,
                x,
                y,
            );
    let i = x - area.0;
    let j = y - area.1;
    assert(piece.inside(i, j));
    assert(piece.at(i, j) == base.at(area.0 + i, area.1 + j));
    assert(base.inside(x, y));
    assert(base.at(x, y).a == 255);
    crate::image::law_drawn_where_put(before, &soft, area.0 as int, area.1 as int, i, j);
}

/// A box shadow is black where the box is, at less than half strength, with a
/// clear margin as wide on every side.
pub proof fn law_box_shadow_lies_in_the_middle(layer: &RgbaImage, w: int, h: int, x: int, y: int)
    requires
        is_box_shadow(layer, w, h),
        layer.inside(x, y),
    ensures
        layer.width - w == layer.height - h == 48,
        0 <= x - 24 < w && 0 <= y - 24 < h ==> layer.at(x, y) == (Rgba { r: 0, g: 0, b: 0, a: 110 }),
        x < 24 || x >= w + 24 || y < 24 || y >= h + 24 ==> layer.at(x, y).a == 0,
        layer.at(x, y) == layer.at(layer.width - 1 - x, y),
        layer.at(x, y) == layer.at(x, layer.height - 1 - y),
{
    assert(layer.inside(layer.width - 1 - x, y));
    assert(layer.inside(x, layer.height - 1 - y));
}

/// An arrow is its shaft, then the head at its end unless it has none, then the
/// one at its start if it has two; a shadow repeats them all. The shaft stops
/// short of every head that is a triangle.
pub proof fn law_arrows_are_shaft_and_heads(head: ArrowHeadStyle, shadow: bool)
    ensures
        ({
            let s = strokes_of(head, shadow);
            &&& s.len() == (if head is NoHead {
                1int
            } else if head is DoubleEnded {
                3
            } else {
                2
            })
            &&& s[0] == (ArrowStroke::Shaft { shadow })
            &&& !(head is NoHead) ==> s[1] == (ArrowStroke::EndHead { shadow })
            &&& head is DoubleEnded ==> s[2] == (ArrowStroke::StartHead { shadow })
        }),
        arrow_strokes(head, true).len() == 2 * arrow_strokes(head, false).len(),
        arrow_strokes(head, false) == strokes_of(head, false),
        arrow_strokes(head, true).skip(strokes_of(head, true).len() as int) == arrow_strokes(
            head,
            false,
        ),
        trims_of(head).0 <==> head is DoubleEnded,
        trims_of(head).1 <==> !(head is NoHead) && !(head is LineOnly),
{
    assert(arrow_strokes(head, true).skip(strokes_of(head, true).len() as int) =~= strokes_of(
        head,
        false,
    ));
}

/// With nothing drawn as its outline, a shape is its fill over the pixels that
/// it covers, however faint the fill is.
pub proof fn law_shapes_are_filled<F: Fn(u32, u32) -> bool, S: Fn(RgbaImage) -> RgbaImage>(
    before: &RgbaImage,
    after: &RgbaImage,
    area: (u32, u32, u32, u32),
    covers: F,
    g: spec_fn(int, int) -> bool,
    fill: Rgba,
    outline: S,
    x: int,
    y: int,
)
    requires
        is_shaped(before, after, area, covers, fill, outline),
        forall|i: u32, j: u32, b: bool| #[trigger]
            call_ensures(covers, (i, j), b) ==> b == g(i as int, j as int),
        forall|c: RgbaImage, d: RgbaImage| #[trigger] call_ensures(outline, (c,), d) ==> d == c,
        before.inside(x, y),
    ensures
        ({
            let covered = area.0 <= x && x < area.2 && area.1 <= y && y < area.3 && g(x, y);
            &&& covered ==> after.at(x, y) == crate::image::over(before.at(x, y), fill)
            &&& !covered ==> after.at(x, y) == before.at(x, y)
            &&& after.same_size(before)
        }),
{
    let filled = choose|filled: RgbaImage|
        #![trigger call_ensures(outline, (filled,), *after)]
        filled.wf() && filled.same_size(before) && (if fill.a > 0 {
            crate::editor::flatten::is_filled(before, &filled, covers, area, fill)
        } else {
            filled == before
        }) && call_ensures(outline, (filled,), *after);
    assert(*after == filled);
    if fill.a > 0 {
        crate::editor::flatten::law_shapes_fill_what_they_cover(
            before,
            &filled,
            covers,
            g,
            area,
            fill,
            x,
            y,
        );
    } else {
        crate::image::law_blend_extremes(before.at(x, y), fill);
    }
}

/// A shadow that is not softened lies where its box is, a margin in from the
/// corner that it is drawn at; a box without extent casts none.
pub proof fn law_shadows_lie_where_they_are_put<B: Fn(RgbaImage) -> RgbaImage>(
    before: &RgbaImage,
    after: &RgbaImage,
    size: (i32, i32),
    corner: (i32, i32),
    soften: B,
    x: int,
    y: int,
)
    requires
        is_shaded(before, after, size, corner, soften),
        forall|c: RgbaImage, d: RgbaImage| #[trigger] call_ensures(soften, (c,), d) ==> d == c,
        after.inside(x, y),
    ensures
        ({
            let i = x - corner.0 - 24;
            let j = y - corner.1 - 24;
            let shaded = 0 <= i < size.0 && 0 <= j < size.1;
            &&& shaded ==> after.at(x, y) == crate::image::over(
                before.at(x, y),
                Rgba { r: 0, g: 0, b: 0, a: 110 },
            )
            &&& !shaded ==> after.at(x, y) == before.at(x, y)
        }),
        size.0 <= 0 || size.1 <= 0 ==> after == before,
{
    if size.0 > 0 && size.1 > 0 {
        let (layer, soft) = choose|layer: RgbaImage, soft: RgbaImage|
            #![trigger call_ensures(soften, (layer,), soft)]
            is_box_shadow(&layer, size.0 as int, size.1 as int) && call_ensures(
                soften,
                (layer,),
                soft,
            ) && forall|x: int, y: int|
                after.inside(x, y) ==> #[trigger] after.at(x, y) == crate::image::drawn_over(
                    before,
                    &soft,
                    corner.0 as int,
                    corner.1 as int,
                    x,
                    y,
                );
        assert(soft == layer);
        let i = x - corner.0;
        let j = y - corner.1;
        crate::image::law_drawn_where_put(
            before,
            &soft,
            corner.0 as int,
            corner.1 as int,
            i,
            j,
        );
        if layer.inside(i, j) {
            law_box_shadow_lies_in_the_middle(
                &layer,
                size.0 as int,
                size.1 as int,
                i,
                j,
            );
        }
    }
}

/// A stamp shows in its area what the map takes from its picture; one that
/// cannot be read changes nothing.
pub proof fn law_stamps_show_their_picture<F: Fn(u32, u32, u32, u32) -> Option<(u32, u32)>>(
    before: &RgbaImage,
    after: &RgbaImage,
    picture: Option<(u32, u32, Seq<u8>)>,
    area: (u32, u32, u32, u32),
    source: F,
    g: spec_fn(int, int) -> Option<(u32, u32)>,
    x: int,
    y: int,
)
    requires
        is_stamped(before, after, picture, area, source),
        forall|w: u32, h: u32, i: u32, j: u32, at: Option<(u32, u32)>| #[trigger]
            call_ensures(source, (w, h, i, j), at) ==> at == g(i as int, j as int),
        after.inside(x, y),
    ensures
        picture is None ==> after == before,
        picture matches Some((w, h, raw)) ==> {
            let at = g(x, y)->Some_0;
            let o = 4 * (at.1 * w + at.0);
            let within = area.0 <= x && x < area.2 && area.1 <= y && y < area.3;
            let found = within && g(x, y) is Some && at.0 < w && at.1 < h;
            &&& found ==> after.at(x, y) == crate::image::over(
                before.at(x, y),
                Rgba { r: raw[o], g: raw[o + 1], b: raw[o + 2], a: raw[o + 3] },
            )
            &&& !found ==> after.at(x, y) == before.at(x, y)
        },
{
    if picture is Some {
        let (w, h, raw) = picture->Some_0;
        let p = choose|p: RgbaImage|
            #![trigger p.wf()]
            p.wf() && p.width == w && p.height == h && p.raw@ == raw
                && crate::editor::flatten::is_laid(before, after, &p, source, area);
        crate::editor::flatten::law_laid_pictures_come_from_their_place(
            before,
            after,
            &p,
            source,
            g,
            area,
            x,
            y,
        );
    }
}

/// What is drawn smoothly in one colour lies over the area in that colour, and
/// outside it nothing changes.
pub proof fn law_smooth_drawing_stays_in_its_area<P: Fn(RgbaImage) -> RgbaImage>(
    before: &RgbaImage,
    after: &RgbaImage,
    area: (u32, u32, u32, u32),
    paint: P,
    color: Rgba,
    x: int,
    y: int,
)
    requires
        is_smoothed(before, after, area, paint),
        forall|c: RgbaImage, d: RgbaImage| #[trigger]
            call_ensures(paint, (c,), d) ==> forall|i: int, j: int|
                c.inside(i, j) ==> #[trigger] d.at(i, j) == color,
        after.inside(x, y),
    ensures
        ({
            let within = area.0 <= x && x < area.2 && area.1 <= y && y < area.3;
            &&& within ==> after.at(x, y) == crate::image::over(before.at(x, y), color)
            &&& !within ==> after.at(x, y) == before.at(x, y)
        }),
{
    if holds_pixels(area) {
        let (empty, fine) = choose|empty: RgbaImage, fine: RgbaImage|
            #![trigger call_ensures(paint, (empty,), fine)]
            empty.wf() && is_clear(&empty) && empty.width == 4 * (area.2 - area.0) && empty.height
                == 4 * (area.3 - area.1) && call_ensures(paint, (empty,), fine) && forall|
                x: int,
                y: int,
            |
                after.inside(x, y) ==> #[trigger] after.at(x, y) == (if crate::image::in_area(
                    x,
                    y,
                    area.0 as int,
                    area.1 as int,
                    area.2 as int,
                    area.3 as int,
                ) {
                    crate::image::over(
                        before.at(x, y),
                        crate::editor::rasterize::block_mean(&fine, x - area.0, y - area.1),
                    )
                } else {
                    before.at(x, y)
                });
        let bx = x - area.0;
        let by = y - area.1;
        if area.0 <= x && x < area.2 && area.1 <= y && y < area.3 {
            assert forall|i: int, j: int| 0 <= i < 4 && 0 <= j < 4 implies #[trigger] fine.at(
                4 * bx + i,
                4 * by + j,
            ) == color by {
                assert(empty.inside(4 * bx + i, 4 * by + j));
            }
            crate::editor::rasterize::law_scaled_down_pixels_are_means(&fine, bx, by);
            assert(crate::editor::rasterize::is_same(
                crate::editor::rasterize::block_mean(&fine, bx, by),
                color,
            ));
        }
    }
}

/// A banner on which nothing is written is its ground over the measured area,
/// and one without lines leaves the picture as it is.
pub proof fn law_banners_have_a_ground<
    M: Fn(&Vec<String>) -> (u32, u32, u32, u32),
    W: Fn(RgbaImage, &String, usize) -> RgbaImage,
>(
    before: &RgbaImage,
    after: &RgbaImage,
    texts: Seq<Seq<char>>,
    fill: Rgba,
    measure: M,
    write: W,
    area: (u32, u32, u32, u32),
    x: int,
    y: int,
)
    requires
        is_bannered(before, after, texts, fill, measure, write),
        forall|lines: Vec<String>, a: (u32, u32, u32, u32)| #[trigger]
            call_ensures(measure, (&lines,), a) ==> a == area,
        forall|c: RgbaImage, s: String, i: usize, d: RgbaImage| #[trigger]
            call_ensures(write, (c, &s, i), d) ==> d == c,
        before.inside(x, y),
    ensures
        texts.len() == 0 ==> after == before,
        texts.len() > 0 ==> {
            let within = area.0 <= x && x < area.2 && area.1 <= y && y < area.3;
            &&& within ==> after.at(x, y) == crate::image::over(before.at(x, y), fill)
            &&& !within ==> after.at(x, y) == before.at(x, y)
        },
{
    if texts.len() > 0 {
        let (lines, a, ground) = choose|
            lines: Vec<String>,
            area: (u32, u32, u32, u32),
            ground: RgbaImage,
        |
            #![trigger call_ensures(measure, (&lines,), area), is_written(ground, *after, lines@, write)]
            crate::text::strings(lines@) == texts && call_ensures(measure, (&lines,), area)
                && ground.wf() && ground.same_size(before) && (forall|x: int, y: int|
                ground.inside(x, y) ==> #[trigger] ground.at(x, y) == (if crate::image::in_area(
                    x,
                    y,
                    area.0 as int,
                    area.1 as int,
                    area.2 as int,
                    area.3 as int,
                ) {
                    crate::image::over(before.at(x, y), fill)
                } else {
                    before.at(x, y)
                })) && is_written(ground, *after, lines@, write);
        assert(a == area);
        lemma_writing_nothing(ground, *after, lines@, write);
    }
}

proof fn lemma_writing_nothing<W: Fn(RgbaImage, &String, usize) -> RgbaImage>(
    before: RgbaImage,
    after: RgbaImage,
    lines: Seq<String>,
    write: W,
)
    requires
        is_written(before, after, lines, write),
        forall|c: RgbaImage, s: String, i: usize, d: RgbaImage| #[trigger]
            call_ensures(write, (c, &s, i), d) ==> d == c,
    ensures
        after == before,
    decreases lines.len(),
{
    if lines.len() > 0 {
        let mid = choose|mid: RgbaImage|
            #![trigger call_ensures(
                write,
                (mid, &lines.last(), (lines.len() - 1) as usize),
                after,
            )]
            is_written(before, mid, lines.drop_last(), write) && call_ensures(
                write,
                (mid, &lines.last(), (lines.len() - 1) as usize),
                after,
            );
        lemma_writing_nothing(before, mid, lines.drop_last(), write);
    }
}

} // verus!
