//! The order in which a document is baked into a picture, and the loops that put
//! shapes and scaled pictures onto it. Where a pixel belongs to a shape, and which
//! pixel of a picture it takes, is decided by the caller.
use vstd::prelude::*;
use crate::codec::decode_image;
use crate::editor::document::{
    AnnotationNode, Border, CursorView, EdgeEffect, NodeView, SerializedCursor,
};
use crate::editor::rasterize::{apply_border, apply_torn_edge, BorderMetrics, TornDepths};
use crate::image::{blend_pixel, RgbaImage};
use crate::px::Rgba;

verus! {

// ---------------------------------------------------------------------------
// Shapes
// ---------------------------------------------------------------------------

/// `after` is `before` with a colour blended into those pixels of an area that
/// `covers` answered for with yes.
pub open spec fn is_filled<F: Fn(u32, u32) -> bool>(
    before: &RgbaImage,
    after: &RgbaImage,
    covers: F,
    area: (u32, u32, u32, u32),
    color: Rgba,
) -> bool {
    forall|x: int, y: int|
        after.inside(x, y) ==> pixel_filled(
            before.at(x, y),
            #[trigger] after.at(x, y),
            covers,
            area,
            color,
            x,
            y,
        )
}

/// What became of one pixel.
pub open spec fn pixel_filled<F: Fn(u32, u32) -> bool>(
    before: Rgba,
    after: Rgba,
    covers: F,
    area: (u32, u32, u32, u32),
    color: Rgba,
    x: int,
    y: int,
) -> bool {
    if crate::image::in_area(
        x,
        y,
        area.0 as int,
        area.1 as int,
        area.2 as int,
        area.3 as int,
    ) {
        ||| call_ensures(covers, (x as u32, y as u32), true) && after == crate::image::over(
            before,
            color,
        )
        ||| call_ensures(covers, (x as u32, y as u32), false) && after == before
    } else {
        after == before
    }
}

/// Blends a colour into those pixels of an area that `covers` answers for with yes.
/// What falls outside the picture is cut off.
pub fn fill_where<F: Fn(u32, u32) -> bool>(
    canvas: &mut RgbaImage,
    area: (u32, u32, u32, u32),
    covers: &F,
    color: Rgba,
)
    requires
        old(canvas).wf(),
        forall|x: u32, y: u32| #[trigger] call_requires(*covers, (x, y)),
    ensures
        final(canvas).wf(),
        final(canvas).same_size(old(canvas)),
        is_filled(old(canvas), final(canvas), *covers, area, color),
{
    let (x0, y0, x1, y1) = area;
    let right: u32 = if x1 < canvas.width {
        x1
    } else {
        canvas.width
    };
    let bottom: u32 = if y1 < canvas.height {
        y1
    } else {
        canvas.height
    };
    let mut y: u32 = y0;
    while y < bottom
        invariant
            area == (x0, y0, x1, y1),
            y0 <= y,
            y <= bottom || y == y0,
            bottom <= y1,
            bottom == y1 || bottom == canvas.height,
            bottom <= canvas.height,
            right <= x1,
            right == x1 || right == canvas.width,
            right <= canvas.width,
            canvas.wf(),
            canvas.same_size(old(canvas)),
            forall|x: u32, y: u32| #[trigger] call_requires(*covers, (x, y)),
            forall|i: int, j: int|
                canvas.inside(i, j) ==> if j < y {
                    pixel_filled(
                        old(canvas).at(i, j),
                        #[trigger] canvas.at(i, j),
                        *covers,
                        area,
                        color,
                        i,
                        j,
                    )
                } else {
                    canvas.at(i, j) == old(canvas).at(i, j)
                },
        decreases bottom - y,
    {
        let mut x: u32 = x0;
        while x < right
            invariant
                area == (x0, y0, x1, y1),
                y0 <= y < bottom,
                bottom <= y1,
                bottom <= canvas.height,
                x0 <= x,
                x <= right || x == x0,
                right <= x1,
                right == x1 || right == canvas.width,
                right <= canvas.width,
                canvas.wf(),
                canvas.same_size(old(canvas)),
                forall|x: u32, y: u32| #[trigger] call_requires(*covers, (x, y)),
                forall|i: int, j: int|
                    canvas.inside(i, j) ==> if j < y || (j == y && i < x) {
                        pixel_filled(
                            old(canvas).at(i, j),
                            #[trigger] canvas.at(i, j),
                            *covers,
                            area,
                            color,
                            i,
                            j,
                        )
                    } else {
                        canvas.at(i, j) == old(canvas).at(i, j)
                    },
            decreases right - x,
        {
            if covers(x, y) {
                blend_pixel(canvas, x, y, color);
            }
            x += 1;
        }
        y += 1;
    }
}

// ---------------------------------------------------------------------------
// Scaled pictures
// ---------------------------------------------------------------------------

/// The pixel of a picture at a place, if there is one.
pub open spec fn taken(src: &RgbaImage, at: Option<(u32, u32)>) -> Option<Rgba> {
    match at {
        Some((x, y)) => if src.inside(x as int, y as int) {
            Some(src.at(x as int, y as int))
        } else {
            None
        },
        None => None,
    }
}

/// A pixel with the taken one blended in.
pub open spec fn blended(before: Rgba, pixel: Option<Rgba>) -> Rgba {
    match pixel {
        Some(c) => crate::image::over(before, c),
        None => before,
    }
}

/// What became of one pixel.
pub open spec fn pixel_sampled<F: Fn(u32, u32) -> Option<(u32, u32)>>(
    before: Rgba,
    after: Rgba,
    src: &RgbaImage,
    source: F,
    area: (u32, u32, u32, u32),
    x: int,
    y: int,
) -> bool {
    if crate::image::in_area(
        x,
        y,
        area.0 as int,
        area.1 as int,
        area.2 as int,
        area.3 as int,
    ) {
        exists|at: Option<(u32, u32)>|
            #![trigger call_ensures(source, (x as u32, y as u32), at)]
            call_ensures(source, (x as u32, y as u32), at) && after == blended(
                before,
                taken(src, at),
            )
    } else {
        after == before
    }
}

/// `after` is `before` with a picture laid over an area, each pixel taken from the
/// place that `source` named.
pub open spec fn is_sampled<F: Fn(u32, u32) -> Option<(u32, u32)>>(
    before: &RgbaImage,
    after: &RgbaImage,
    src: &RgbaImage,
    source: F,
    area: (u32, u32, u32, u32),
) -> bool {
    forall|x: int, y: int|
        after.inside(x, y) ==> pixel_sampled(
            before.at(x, y),
            #[trigger] after.at(x, y),
            src,
            source,
            area,
            x,
            y,
        )
}

/// Lays a picture over an area, each pixel taken from the place that `source` names.
/// A place outside the picture leaves the pixel alone.
pub fn sample_where<F: Fn(u32, u32) -> Option<(u32, u32)>>(
    canvas: &mut RgbaImage,
    src: &RgbaImage,
    area: (u32, u32, u32, u32),
    source: &F,
)
    requires
        old(canvas).wf(),
        src.wf(),
        forall|x: u32, y: u32| #[trigger] call_requires(*source, (x, y)),
    ensures
        final(canvas).wf(),
        final(canvas).same_size(old(canvas)),
        is_sampled(old(canvas), final(canvas), src, *source, area),
{
    let (x0, y0, x1, y1) = area;
    let right: u32 = if x1 < canvas.width {
        x1
    } else {
        canvas.width
    };
    let bottom: u32 = if y1 < canvas.height {
        y1
    } else {
        canvas.height
    };
    let mut y: u32 = y0;
    while y < bottom
        invariant
            area == (x0, y0, x1, y1),
            y0 <= y,
            y <= bottom || y == y0,
            bottom <= y1,
            bottom == y1 || bottom == canvas.height,
            bottom <= canvas.height,
            right <= x1,
            right == x1 || right == canvas.width,
            right <= canvas.width,
            canvas.wf(),
            src.wf(),
            canvas.same_size(old(canvas)),
            forall|x: u32, y: u32| #[trigger] call_requires(*source, (x, y)),
            forall|i: int, j: int|
                canvas.inside(i, j) ==> if j < y {
                    pixel_sampled(
                        old(canvas).at(i, j),
                        #[trigger] canvas.at(i, j),
                        src,
                        *source,
                        area,
                        i,
                        j,
                    )
                } else {
                    canvas.at(i, j) == old(canvas).at(i, j)
                },
        decreases bottom - y,
    {
        let mut x: u32 = x0;
        while x < right
            invariant
                area == (x0, y0, x1, y1),
                y0 <= y < bottom,
                bottom <= y1,
                bottom <= canvas.height,
                x0 <= x,
                x <= right || x == x0,
                right <= x1,
                right == x1 || right == canvas.width,
                right <= canvas.width,
                canvas.wf(),
                src.wf(),
                canvas.same_size(old(canvas)),
                forall|x: u32, y: u32| #[trigger] call_requires(*source, (x, y)),
                forall|i: int, j: int|
                    canvas.inside(i, j) ==> if j < y || (j == y && i < x) {
                        pixel_sampled(
                            old(canvas).at(i, j),
                            #[trigger] canvas.at(i, j),
                            src,
                            *source,
                            area,
                            i,
                            j,
                        )
                    } else {
                        canvas.at(i, j) == old(canvas).at(i, j)
                    },
            decreases right - x,
        {
            let at = source(x, y);
            let ghost before = canvas.at(x as int, y as int);
            if let Some((sx, sy)) = at {
                if sx < src.width && sy < src.height {
                    let c = src.get_pixel(sx, sy);
                    blend_pixel(canvas, x, y, c);
                }
            }
            assert(call_ensures(*source, ((x as int) as u32, (y as int) as u32), at));
            assert(pixel_sampled(
                before,
                canvas.at(x as int, y as int),
                src,
                *source,
                area,
                x as int,
                y as int,
            ));
            x += 1;
        }
        y += 1;
    }
}

/// What became of one pixel under a picture. `source` was told the size of the picture
/// and named the place in it that the pixel is taken from.
pub open spec fn pixel_laid<F: Fn(u32, u32, u32, u32) -> Option<(u32, u32)>>(
    before: Rgba,
    after: Rgba,
    picture: &RgbaImage,
    source: F,
    area: (u32, u32, u32, u32),
    x: int,
    y: int,
) -> bool {
    if crate::image::in_area(
        x,
        y,
        area.0 as int,
        area.1 as int,
        area.2 as int,
        area.3 as int,
    ) {
        exists|at: Option<(u32, u32)>|
            #![trigger call_ensures(
                source,
                (picture.width, picture.height, x as u32, y as u32),
                at,
            )]
            call_ensures(source, (picture.width, picture.height, x as u32, y as u32), at) && after
                == blended(before, taken(picture, at))
    } else {
        after == before
    }
}

/// `after` is `before` with a picture laid over an area.
pub open spec fn is_laid<F: Fn(u32, u32, u32, u32) -> Option<(u32, u32)>>(
    before: &RgbaImage,
    after: &RgbaImage,
    picture: &RgbaImage,
    source: F,
    area: (u32, u32, u32, u32),
) -> bool {
    forall|x: int, y: int|
        after.inside(x, y) ==> pixel_laid(
            before.at(x, y),
            #[trigger] after.at(x, y),
            picture,
            source,
            area,
            x,
            y,
        )
}

/// Lays a picture over an area. For each pixel `source` is told the size of the picture
/// and names the place in it.
pub fn lay_picture<F: Fn(u32, u32, u32, u32) -> Option<(u32, u32)>>(
    canvas: &mut RgbaImage,
    picture: &RgbaImage,
    area: (u32, u32, u32, u32),
    source: &F,
)
    requires
        old(canvas).wf(),
        picture.wf(),
        forall|w: u32, h: u32, x: u32, y: u32| #[trigger] call_requires(*source, (w, h, x, y)),
    ensures
        final(canvas).wf(),
        final(canvas).same_size(old(canvas)),
        is_laid(old(canvas), final(canvas), picture, *source, area),
{
    let (w, h) = (picture.width, picture.height);
    let place = |x: u32, y: u32| -> (at: Option<(u32, u32)>)
        ensures
            call_ensures(*source, (w, h, x, y), at),
        { source(w, h, x, y) };
    sample_where(canvas, picture, area, &place);
    proof {
        assert forall|x: int, y: int| canvas.inside(x, y) implies pixel_laid(
            old(canvas).at(x, y),
            #[trigger] canvas.at(x, y),
            picture,
            *source,
            area,
            x,
            y,
        ) by {
            assert(pixel_sampled(
                old(canvas).at(x, y),
                canvas.at(x, y),
                picture,
                place,
                area,
                x,
                y,
            ));
        }
    }
}

// ---------------------------------------------------------------------------
// Annotations
// ---------------------------------------------------------------------------

/// A step in baking an annotation.
#[derive(Debug, Clone, Copy, PartialEq, Eq, Structural)]
pub enum Part {
    /// The shadow of a text box.
    Shadow,
    /// The blurred ground of a text box.
    Frost,
    /// The annotation itself.
    Body,
}

/// The steps in baking an annotation, from the bottom up: what lies below the glyphs
/// of a text box comes before them.
pub open spec fn parts_of(n: NodeView) -> Seq<Part> {
    match n {
        NodeView::Text { frosted, shadow, .. } => {
            let below = (if shadow {
                seq![Part::Shadow]
            } else {
                Seq::<Part>::empty()
            });
            let ground = (if frosted {
                seq![Part::Frost]
            } else {
                Seq::<Part>::empty()
            });
            below + ground + seq![Part::Body]
        },
        _ => seq![Part::Body],
    }
}

/// The steps in baking an annotation.
pub fn parts(n: &AnnotationNode) -> (r: Vec<Part>)
    ensures
        r@ == parts_of(n@),
{
    let mut out: Vec<Part> = Vec::new();
    if let AnnotationNode::Text { frosted, shadow, .. } = n {
        if *shadow {
            out.push(Part::Shadow);
        }
        if *frosted {
            out.push(Part::Frost);
        }
    }
    out.push(Part::Body);
    assert(out@ =~= parts_of(n@));
    out
}

/// Two pictures of one size with equal pixels.
pub open spec fn same_picture(a: &RgbaImage, b: &RgbaImage) -> bool {
    a.width == b.width && a.height == b.height && a.raw@ == b.raw@
}

/// `after` came out of `before` by painting these parts of an annotation in order.
/// Each time the painter was shown the untouched picture.
pub open spec fn parts_painted<P: Fn(RgbaImage, &RgbaImage, &AnnotationNode, Part) -> RgbaImage>(
    paint: P,
    base: RgbaImage,
    node: AnnotationNode,
    steps: Seq<Part>,
    before: RgbaImage,
    after: RgbaImage,
) -> bool
    decreases steps.len(),
{
    if steps.len() == 0 {
        after == before
    } else {
        exists|mid: RgbaImage|
            #![trigger call_ensures(paint, (mid, &base, &node, steps.last()), after)]
            parts_painted(paint, base, node, steps.drop_last(), before, mid) && call_ensures(
                paint,
                (mid, &base, &node, steps.last()),
                after,
            )
    }
}

/// `after` came out of `before` by painting these annotations, the first one at the
/// bottom.
pub open spec fn painted<P: Fn(RgbaImage, &RgbaImage, &AnnotationNode, Part) -> RgbaImage>(
    paint: P,
    base: RgbaImage,
    nodes: Seq<AnnotationNode>,
    before: RgbaImage,
    after: RgbaImage,
) -> bool
    decreases nodes.len(),
{
    if nodes.len() == 0 {
        after == before
    } else {
        exists|mid: RgbaImage|
            painted(paint, base, nodes.drop_last(), before, mid) && #[trigger] parts_painted(
                paint,
                base,
                nodes.last(),
                parts_of(nodes.last()@),
                mid,
                after,
            )
    }
}

/// A painter that can paint any part of any annotation on any picture of the size of
/// `base`, and leaves that size.
pub open spec fn is_painter<P: Fn(RgbaImage, &RgbaImage, &AnnotationNode, Part) -> RgbaImage>(
    paint: P,
    base: RgbaImage,
) -> bool {
    &&& forall|c: RgbaImage, n: AnnotationNode, p: Part|
        c.wf() && c.same_size(&base) ==> #[trigger] call_requires(paint, (c, &base, &n, p))
    &&& forall|c: RgbaImage, n: AnnotationNode, p: Part, r: RgbaImage| #[trigger]
        call_ensures(paint, (c, &base, &n, p), r) && c.wf() && c.same_size(&base) ==> r.wf()
            && r.same_size(&base)
}

/// `after` is what baking these annotations into a copy of the picture gives.
pub open spec fn is_flattened<P: Fn(RgbaImage, &RgbaImage, &AnnotationNode, Part) -> RgbaImage>(
    paint: P,
    base: RgbaImage,
    nodes: Seq<AnnotationNode>,
    after: RgbaImage,
) -> bool {
    exists|copy: RgbaImage|
        same_picture(&copy, &base) && #[trigger] painted(paint, base, nodes, copy, after)
}

/// Bakes annotations into a copy of the picture. Each is painted over the ones before
/// it, and whatever it takes from the picture it takes from the untouched one.
pub fn flatten<P: Fn(RgbaImage, &RgbaImage, &AnnotationNode, Part) -> RgbaImage>(
    base: &RgbaImage,
    annotations: &Vec<AnnotationNode>,
    paint: &P,
) -> (r: RgbaImage)
    requires
        base.wf(),
        is_painter(*paint, *base),
    ensures
        r.wf(),
        r.same_size(base),
        is_flattened(*paint, *base, annotations@, r),
{
    let mut out = base.clone();
    let ghost copy = out;
    let mut i: usize = 0;
    while i < annotations.len()
        invariant
            i <= annotations@.len(),
            base.wf(),
            is_painter(*paint, *base),
            out.wf(),
            out.same_size(base),
            painted(*paint, *base, annotations@.take(i as int), copy, out),
        decreases annotations@.len() - i,
    {
        let node = &annotations[i];
        let steps = parts(node);
        let ghost start = out;
        let mut k: usize = 0;
        while k < steps.len()
            invariant
                k <= steps@.len(),
                base.wf(),
                is_painter(*paint, *base),
                out.wf(),
                out.same_size(base),
                parts_painted(*paint, *base, *node, steps@.take(k as int), start, out),
            decreases steps@.len() - k,
        {
            let ghost mid = out;
            let part = steps[k];
            out = paint(out, base, node, part);
            assert(steps@.take(k + 1).drop_last() =~= steps@.take(k as int));
            assert(steps@.take(k + 1).last() == part);
            assert(call_ensures(*paint, (mid, base, node, part), out));
            k += 1;
        }
        assert(steps@.take(k as int) =~= steps@);
        assert(annotations@.take(i + 1).drop_last() =~= annotations@.take(i as int));
        assert(annotations@.take(i + 1).last() == *node);
        assert(parts_painted(
            *paint,
            *base,
            annotations@.take(i + 1).last(),
            parts_of(annotations@.take(i + 1).last()@),
            start,
            out,
        ));
        i += 1;
    }
    assert(annotations@.take(i as int) =~= annotations@);
    out
}

// ---------------------------------------------------------------------------
// Document effects
// ---------------------------------------------------------------------------

/// `after` is `before` with the edges torn, if they are to be.
pub open spec fn edge_done(
    before: &RgbaImage,
    edge: Option<(EdgeEffect, TornDepths)>,
    after: &RgbaImage,
) -> bool {
    match edge {
        Some((effect, depths)) => after.same_size(before) && forall|x: int, y: int|
            after.inside(x, y) ==> #[trigger] after.at(x, y) == (if exists|e: crate::editor::document::Edge|
                effect.tears(e) && crate::editor::rasterize::is_torn(
                    before,
                    e,
                    #[trigger] depths.of(e),
                    x,
                    y,
                ) {
                Rgba { r: 0, g: 0, b: 0, a: 0 }
            } else {
                before.at(x, y)
            }),
        None => after == before,
    }
}

/// `layer` is the shadow of a border, before any blur.
pub open spec fn is_shadow(before: &RgbaImage, b: Border, m: BorderMetrics, layer: &RgbaImage) -> bool {
    &&& layer.wf()
    &&& layer.width == m.new_width(before.width as int)
    &&& layer.height == m.new_height(before.height as int)
    &&& forall|x: int, y: int|
        layer.inside(x, y) ==> #[trigger] layer.at(x, y) == crate::editor::rasterize::shadow_at(
            b,
            m,
            before.width as int,
            before.height as int,
            x,
            y,
        )
}

/// `after` is `before` with its border, if it has one. A shadow with a radius has
/// been softened.
pub open spec fn border_done<B: Fn(RgbaImage) -> RgbaImage>(
    before: &RgbaImage,
    border: Option<(Border, BorderMetrics)>,
    soften: B,
    after: &RgbaImage,
) -> bool {
    match border {
        Some((b, m)) => exists|layer: RgbaImage, ground: RgbaImage|
            #![trigger is_shadow(before, b, m, &layer), ground.wf()]
            is_shadow(before, b, m, &layer) && ground.wf() && (if m.shadow_radius == 0 {
                ground == layer
            } else {
                call_ensures(soften, (layer,), ground)
            }) && after.same_size(&ground) && forall|x: int, y: int|
                after.inside(x, y) ==> #[trigger] after.at(x, y)
                    == crate::editor::rasterize::bordered_at(before, b, m, ground.at(x, y), x, y),
        None => after == before,
    }
}

/// Whether the document effects can be put on a picture of the size of `base`.
pub open spec fn effects_fit(
    base: &RgbaImage,
    edge: Option<(EdgeEffect, TornDepths)>,
    border: Option<(Border, BorderMetrics)>,
) -> bool {
    &&& edge matches Some((effect, depths)) ==> forall|e: crate::editor::document::Edge|
        effect.tears(e) ==> #[trigger] depths.of(e).len()
            == crate::editor::rasterize::edge_length(base, e)
    &&& border matches Some((_, m)) ==> m.fits(base.width as int, base.height as int)
}

/// A function from pictures to pictures that takes any and leaves its size.
pub open spec fn keeps_size<B: Fn(RgbaImage) -> RgbaImage>(soften: B) -> bool {
    &&& forall|c: RgbaImage| c.wf() ==> #[trigger] call_requires(soften, (c,))
    &&& forall|c: RgbaImage, d: RgbaImage| #[trigger]
        call_ensures(soften, (c,), d) && c.wf() ==> d.wf() && d.same_size(&c)
}

/// Gives a baked picture its torn edges and then its border, so that the border runs
/// round what is left of the picture.
pub fn apply_document_effects<B: Fn(RgbaImage) -> RgbaImage>(
    flat: RgbaImage,
    edge: Option<(EdgeEffect, TornDepths)>,
    border: Option<(Border, BorderMetrics)>,
    soften: &B,
) -> (r: RgbaImage)
    requires
        flat.wf(),
        effects_fit(&flat, edge, border),
        keeps_size(*soften),
    ensures
        r.wf(),
        exists|torn: RgbaImage| #[trigger]
            edge_done(&flat, edge, &torn) && border_done(&torn, border, *soften, &r),
{
    let torn = match &edge {
        Some((effect, depths)) => {
            let t = apply_torn_edge(&flat, *effect, depths);
            assert(edge_done(&flat, edge, &t));
            t
        },
        None => flat,
    };
    assert(edge_done(&flat, edge, &torn));
    match &border {
        Some((b, m)) => apply_border(&torn, b, *m, soften),
        None => torn,
    }
}

// ---------------------------------------------------------------------------
// Export
// ---------------------------------------------------------------------------

/// The size of a picture of `w` x `h` pixels with its border.
pub open spec fn bordered_extent(border: Option<(Border, BorderMetrics)>, w: int, h: int) -> (
    int,
    int,
) {
    match border {
        Some((_, m)) => (m.new_width(w), m.new_height(h)),
        None => (w, h),
    }
}

/// `after` is the picture with its annotations, then its torn edges, then its border.
pub open spec fn is_baked<
    P: Fn(RgbaImage, &RgbaImage, &AnnotationNode, Part) -> RgbaImage,
    B: Fn(RgbaImage) -> RgbaImage,
>(
    paint: P,
    base: &RgbaImage,
    nodes: Seq<AnnotationNode>,
    edge: Option<(EdgeEffect, TornDepths)>,
    border: Option<(Border, BorderMetrics)>,
    soften: B,
    after: &RgbaImage,
) -> bool {
    exists|copy: RgbaImage, flat: RgbaImage, torn: RgbaImage|
        #![trigger painted(paint, *base, nodes, copy, flat), edge_done(&flat, edge, &torn)]
        same_picture(&copy, base) && painted(paint, *base, nodes, copy, flat) && edge_done(
            &flat,
            edge,
            &torn,
        ) && border_done(&torn, border, soften, after)
}

/// Bakes a document over its picture: the annotations, then the effects of the
/// document.
pub fn bake<
    P: Fn(RgbaImage, &RgbaImage, &AnnotationNode, Part) -> RgbaImage,
    B: Fn(RgbaImage) -> RgbaImage,
>(
    base: &RgbaImage,
    annotations: &Vec<AnnotationNode>,
    paint: &P,
    edge: Option<(EdgeEffect, TornDepths)>,
    border: Option<(Border, BorderMetrics)>,
    soften: &B,
) -> (r: RgbaImage)
    requires
        base.wf(),
        is_painter(*paint, *base),
        effects_fit(base, edge, border),
        keeps_size(*soften),
    ensures
        r.wf(),
        (r.width as int, r.height as int) == bordered_extent(
            border,
            base.width as int,
            base.height as int,
        ),
        is_baked(*paint, base, annotations@, edge, border, *soften, &r),
{
    let flat = flatten(base, annotations, paint);
    assert(forall|e: crate::editor::document::Edge| #[trigger]
        crate::editor::rasterize::edge_length(&flat, e)
            == crate::editor::rasterize::edge_length(base, e));
    let ghost copy = choose|copy: RgbaImage|
        same_picture(&copy, base) && #[trigger] painted(*paint, *base, annotations@, copy, flat);
    let ghost before = flat;
    let out = apply_document_effects(flat, edge, border, soften);
    proof {
        let torn = choose|torn: RgbaImage| #[trigger]
            edge_done(&before, edge, &torn) && border_done(&torn, border, *soften, &out);
        assert(painted(*paint, *base, annotations@, copy, before));
        assert(edge_done(&before, edge, &torn));
        assert(is_baked(*paint, base, annotations@, edge, border, *soften, &out));
    }
    out
}

/// A position held within the sides of a picture.
pub open spec fn clipped(v: int, side: u32) -> u32 {
    if v < 0 {
        0
    } else if v > side {
        side
    } else {
        v as u32
    }
}

/// The part of a picture that a cursor covers.
pub open spec fn cursor_area(c: CursorView, img: &RgbaImage) -> (u32, u32, u32, u32) {
    (
        clipped(c.x as int, img.width),
        clipped(c.y as int, img.height),
        clipped(c.x + c.width, img.width),
        clipped(c.y + c.height, img.height),
    )
}

/// `after` is `before` with the cursor drawn where it lies now. A cursor whose picture
/// cannot be read is left out.
pub open spec fn cursor_composed<F: Fn(u32, u32, u32, u32) -> Option<(u32, u32)>>(
    before: &RgbaImage,
    cursor: Option<CursorView>,
    source: F,
    after: &RgbaImage,
) -> bool {
    match cursor {
        None => after == before,
        Some(c) => match crate::codec::decoded_image(c.png) {
            None => after == before,
            Some((w, h, raw)) => {
                &&& after.wf() && after.same_size(before)
                &&& exists|picture: RgbaImage|
                    #![trigger picture.wf()]
                    picture.wf() && picture.width == w && picture.height == h && picture.raw@ == raw
                        && is_laid(before, after, &picture, source, cursor_area(c, before))
            },
        },
    }
}

fn clip(v: i64, side: u32) -> (r: u32)
    ensures
        r == clipped(v as int, side),
{
    if v < 0 {
        0
    } else if v > side as i64 {
        side
    } else {
        v as u32
    }
}

/// Draws the cursor of a document onto a picture, scaled to the size that it has in the
/// document.
pub fn compose_cursor<F: Fn(u32, u32, u32, u32) -> Option<(u32, u32)>>(
    base: RgbaImage,
    cursor: &Option<SerializedCursor>,
    source: &F,
) -> (r: RgbaImage)
    requires
        base.wf(),
        forall|w: u32, h: u32, x: u32, y: u32| #[trigger] call_requires(*source, (w, h, x, y)),
    ensures
        r.wf(),
        r.same_size(&base),
        cursor_composed(&base, crate::editor::document::cursor_view(*cursor), *source, &r),
{
    match cursor {
        None => base,
        Some(c) => match decode_image(&c.png) {
            None => base,
            Some(picture) => {
                let area = (
                    clip(c.x as i64, base.width),
                    clip(c.y as i64, base.height),
                    clip(c.x as i64 + c.width as i64, base.width),
                    clip(c.y as i64 + c.height as i64, base.height),
                );
                assert(area == cursor_area(c@, &base));
                let mut out = base;
                lay_picture(&mut out, &picture, area, source);
                assert(picture.wf());
                out
            },
        },
    }
}

// ---------------------------------------------------------------------------
// Laws
// ---------------------------------------------------------------------------

/// Whatever lies below the glyphs of a text box is painted before them, the shadow
/// first, and each annotation is painted last.
pub proof fn law_effects_lie_below(n: NodeView)
    ensures
        parts_of(n).last() == Part::Body,
        forall|i: int, j: int|
            0 <= i < j < parts_of(n).len() ==> parts_of(n)[i] != #[trigger] parts_of(n)[j] && (#[trigger] parts_of(
                n,
            )[i] == Part::Shadow || parts_of(n)[j] == Part::Body),
{
}

/// A shape leaves everything outside its area alone.
pub proof fn law_shapes_stay_in_their_area<F: Fn(u32, u32) -> bool>(
    before: &RgbaImage,
    after: &RgbaImage,
    covers: F,
    area: (u32, u32, u32, u32),
    color: Rgba,
    x: int,
    y: int,
)
    requires
        is_filled(before, after, covers, area, color),
        after.inside(x, y),
        !crate::image::in_area(
            x,
            y,
            area.0 as int,
            area.1 as int,
            area.2 as int,
            area.3 as int,
        ),
    ensures
        after.at(x, y) == before.at(x, y),
{
}

/// A document without annotations and effects is baked into the very picture that it
/// holds.
pub proof fn law_plain_documents_stay_as_they_are<
    P: Fn(RgbaImage, &RgbaImage, &AnnotationNode, Part) -> RgbaImage,
    B: Fn(RgbaImage) -> RgbaImage,
>(paint: P, base: &RgbaImage, soften: B, after: &RgbaImage)
    requires
        is_baked(paint, base, Seq::<AnnotationNode>::empty(), None, None, soften, after),
    ensures
        same_picture(after, base),
{
}

/// The cursor changes nothing outside the area that it covers.
pub proof fn law_cursor_stays_in_its_area<F: Fn(u32, u32, u32, u32) -> Option<(u32, u32)>>(
    before: &RgbaImage,
    c: CursorView,
    source: F,
    after: &RgbaImage,
    x: int,
    y: int,
)
    requires
        cursor_composed(before, Some(c), source, after),
        before.inside(x, y),
        !crate::image::in_area(
            x,
            y,
            c.x as int,
            c.y as int,
            c.x + c.width,
            c.y + c.height,
        ),
    ensures
        after.at(x, y) == before.at(x, y),
{
}

/// A colour is laid over exactly the pixels that a shape covers in its area.
pub proof fn law_shapes_fill_what_they_cover<F: Fn(u32, u32) -> bool>(
    before: &RgbaImage,
    after: &RgbaImage,
    covers: F,
    g: spec_fn(int, int) -> bool,
    area: (u32, u32, u32, u32),
    color: Rgba,
    x: int,
    y: int,
)
    requires
        is_filled(before, after, covers, area, color),
        forall|i: u32, j: u32, b: bool| #[trigger]
            call_ensures(covers, (i, j), b) ==> b == g(i as int, j as int),
        after.inside(x, y),
    ensures
        ({
            let covered = area.0 <= x && x < area.2 && area.1 <= y && y < area.3 && g(x, y);
            &&& covered ==> after.at(x, y) == crate::image::over(before.at(x, y), color)
            &&& covered && color.a == 255 ==> after.at(x, y) == color
            &&& !covered ==> after.at(x, y) == before.at(x, y)
        }),
{
    assert(pixel_filled(before.at(x, y), after.at(x, y), covers, area, color, x, y));
    crate::image::law_blend_extremes(before.at(x, y), color);
}

/// A sampled pixel is the one of the picture that the map gives it; where the
/// map gives none, or one outside the picture, and outside the area, the canvas
/// stays.
pub proof fn law_samples_come_from_their_place<F: Fn(u32, u32) -> Option<(u32, u32)>>(
    before: &RgbaImage,
    after: &RgbaImage,
    src: &RgbaImage,
    source: F,
    g: spec_fn(int, int) -> Option<(u32, u32)>,
    area: (u32, u32, u32, u32),
    x: int,
    y: int,
)
    requires
        is_sampled(before, after, src, source, area),
        forall|i: u32, j: u32, at: Option<(u32, u32)>| #[trigger]
            call_ensures(source, (i, j), at) ==> at == g(i as int, j as int),
        after.inside(x, y),
    ensures
        ({
            let within = area.0 <= x && x < area.2 && area.1 <= y && y < area.3;
            let at = g(x, y)->Some_0;
            let found = within && g(x, y) is Some && at.0 < src.width && at.1 < src.height;
            &&& found ==> after.at(x, y) == crate::image::over(
                before.at(x, y),
                src.at(at.0 as int, at.1 as int),
            )
            &&& found && src.at(at.0 as int, at.1 as int).a == 255 ==> after.at(x, y) == src.at(
                at.0 as int,
                at.1 as int,
            )
            &&& !found ==> after.at(x, y) == before.at(x, y)
        }),
{
    assert(pixel_sampled(before.at(x, y), after.at(x, y), src, source, area, x, y));
    if crate::image::in_area(
        x,
        y,
        area.0 as int,
        area.1 as int,
        area.2 as int,
        area.3 as int,
    ) && g(x, y) is Some {
        let at = g(x, y)->Some_0;
        crate::image::law_blend_extremes(before.at(x, y), src.at(at.0 as int, at.1 as int));
    }
}

/// A picture that is laid into an area shows there what the map takes from it.
pub proof fn law_laid_pictures_come_from_their_place<
    F: Fn(u32, u32, u32, u32) -> Option<(u32, u32)>,
>(
    before: &RgbaImage,
    after: &RgbaImage,
    picture: &RgbaImage,
    source: F,
    g: spec_fn(int, int) -> Option<(u32, u32)>,
    area: (u32, u32, u32, u32),
    x: int,
    y: int,
)
    requires
        is_laid(before, after, picture, source, area),
        forall|i: u32, j: u32, at: Option<(u32, u32)>| #[trigger]
            call_ensures(source, (picture.width, picture.height, i, j), at) ==> at == g(
                i as int,
                j as int,
            ),
        after.inside(x, y),
    ensures
        ({
            let within = area.0 <= x && x < area.2 && area.1 <= y && y < area.3;
            let at = g(x, y)->Some_0;
            let found = within && g(x, y) is Some && at.0 < picture.width && at.1 < picture.height;
            &&& found ==> after.at(x, y) == crate::image::over(
                before.at(x, y),
                picture.at(at.0 as int, at.1 as int),
            )
            &&& !found ==> after.at(x, y) == before.at(x, y)
        }),
{
    assert(pixel_laid(before.at(x, y), after.at(x, y), picture, source, area, x, y));
}

/// Only a text box has parts below itself: a shadow where it casts one, and a
/// ground where it is frosted. Everything has a body, once.
pub proof fn law_parts_of_annotations(n: NodeView)
    ensures
        parts_of(n).contains(Part::Shadow) <==> n is Text && n->Text_shadow,
        parts_of(n).contains(Part::Frost) <==> n is Text && n->Text_frosted,
        parts_of(n).len() == 1 + (if n is Text && n->Text_shadow {
            1int
        } else {
            0
        }) + (if n is Text && n->Text_frosted {
            1int
        } else {
            0
        }),
{
    let s = parts_of(n);
    if n is Text && n->Text_shadow {
        assert(s[0] == Part::Shadow);
    }
    if n is Text && n->Text_frosted {
        assert(s[s.len() - 2] == Part::Frost);
    }
}

/// The area of a cursor holds the pixels of the picture that the cursor covers,
/// and no others.
pub proof fn law_cursor_area_is_what_it_covers(c: CursorView, img: &RgbaImage, x: int, y: int)
    requires
        img.inside(x, y),
    ensures
        ({
            let a = cursor_area(c, img);
            &&& crate::image::in_area(x, y, a.0 as int, a.1 as int, a.2 as int, a.3 as int)
                <==> c.x <= x && x < c.x + c.width && c.y <= y && y < c.y + c.height
            &&& a.0 <= img.width && a.2 <= img.width && a.1 <= img.height && a.3 <= img.height
        }),
{
}

/// A coordinate is kept within a side: it stays where it lies in it, and becomes
/// the end that it passed.
pub proof fn law_clipped_to_the_side(v: int, side: u32)
    ensures
        0 <= clipped(v, side) <= side,
        0 <= v <= side ==> clipped(v, side) == v,
        v <= 0 ==> clipped(v, side) == 0,
        v >= side ==> clipped(v, side) == side,
{
}

/// Without a border a picture keeps its size; with one it grows by what the
/// border takes on both sides.
pub proof fn law_bordered_size(b: Border, m: BorderMetrics, w: int, h: int)
    ensures
        bordered_extent(None, w, h) == (w, h),
        bordered_extent(Some((b, m)), w, h).0 == w + m.pad_left() + m.pad_right(),
        bordered_extent(Some((b, m)), w, h).1 == h + m.pad_top() + m.pad_bottom(),
{
}

/// Flattening a document without annotations gives the picture itself.
pub proof fn law_nothing_to_flatten<
    P: Fn(RgbaImage, &RgbaImage, &AnnotationNode, Part) -> RgbaImage,
>(paint: P, base: RgbaImage, after: RgbaImage)
    requires
        is_flattened(paint, base, Seq::<AnnotationNode>::empty(), after),
    ensures
        after.width == base.width,
        after.height == base.height,
        after.raw@ == base.raw@,
{
}

/// With a shadow that is not softened, a bordered picture shows at each pixel
/// the picture over the matte over the frame over the shadow; without a border
/// it is unchanged.
pub proof fn law_borders_are_laid_over_their_shadow<B: Fn(RgbaImage) -> RgbaImage>(
    before: &RgbaImage,
    b: Border,
    m: BorderMetrics,
    soften: B,
    after: &RgbaImage,
    x: int,
    y: int,
)
    requires
        border_done(before, Some((b, m)), soften, after),
        forall|c: RgbaImage, d: RgbaImage| #[trigger] call_ensures(soften, (c,), d) ==> d == c,
        after.inside(x, y),
    ensures
        after.width == before.width + m.pad_left() + m.pad_right(),
        after.height == before.height + m.pad_top() + m.pad_bottom(),
        after.at(x, y) == crate::editor::rasterize::bordered_at(
            before,
            b,
            m,
            crate::editor::rasterize::shadow_at(
                b,
                m,
                before.width as int,
                before.height as int,
                x,
                y,
            ),
            x,
            y,
        ),
{
    let border = Some((b, m));
    assert(border->Some_0.0 == b && border->Some_0.1 == m);
    let (layer, ground) = choose|layer: RgbaImage, ground: RgbaImage|
        #![trigger is_shadow(before, b, m, &layer), ground.wf()]
        is_shadow(before, b, m, &layer) && ground.wf() && (if m.shadow_radius == 0 {
            ground == layer
        } else {
            call_ensures(soften, (layer,), ground)
        }) && after.same_size(&ground) && forall|x: int, y: int|
            after.inside(x, y) ==> #[trigger] after.at(x, y)
                == crate::editor::rasterize::bordered_at(before, b, m, ground.at(x, y), x, y);
    assert(ground == layer);
    assert(layer.inside(x, y));
    assert(layer.at(x, y) == crate::editor::rasterize::shadow_at(
        b,
        m,
        before.width as int,
        before.height as int,
        x,
        y,
    ));
}

/// A cursor shows in its area what the map takes from its picture, and where the
/// picture cannot be read nothing changes.
pub proof fn law_cursor_shows_its_picture<F: Fn(u32, u32, u32, u32) -> Option<(u32, u32)>>(
    before: &RgbaImage,
    c: CursorView,
    source: F,
    after: &RgbaImage,
    g: spec_fn(int, int) -> Option<(u32, u32)>,
    x: int,
    y: int,
)
    requires
        cursor_composed(before, Some(c), source, after),
        forall|w: u32, h: u32, i: u32, j: u32, at: Option<(u32, u32)>| #[trigger]
            call_ensures(source, (w, h, i, j), at) ==> at == g(i as int, j as int),
        after.inside(x, y),
    ensures
        crate::codec::decoded_image(c.png) is None ==> after == before,
        crate::codec::decoded_image(c.png) matches Some((w, h, raw)) ==> {
            let at = g(x, y)->Some_0;
            let o = 4 * (at.1 * w + at.0);
            let covered = c.x <= x && x < c.x + c.width && c.y <= y && y < c.y + c.height;
            let found = covered && g(x, y) is Some && at.0 < w && at.1 < h;
            &&& found ==> after.at(x, y) == crate::image::over(
                before.at(x, y),
                Rgba { r: raw[o], g: raw[o + 1], b: raw[o + 2], a: raw[o + 3] },
            )
            &&& !found ==> after.at(x, y) == before.at(x, y)
        },
{
    if crate::codec::decoded_image(c.png) is Some {
        let (w, h, raw) = crate::codec::decoded_image(c.png)->Some_0;
        let area = cursor_area(c, before);
        let picture = choose|picture: RgbaImage|
            #![trigger picture.wf()]
            picture.wf() && picture.width == w && picture.height == h && picture.raw@ == raw
                && is_laid(before, after, &picture, source, cursor_area(c, before));
        law_laid_pictures_come_from_their_place(before, after, &picture, source, g, area, x, y);
        law_cursor_area_is_what_it_covers(c, before, x, y);
    }
}

} // verus!
