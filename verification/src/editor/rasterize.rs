//! Baking annotations and document effects into pixels: the integer part.
//! Shapes, glyphs and blurs are computed in floating point elsewhere and come
//! in as finished pixels, coverage depths or rounded sizes.
use vstd::prelude::*;
use crate::capture::{CaptureMetadata, MetadataView, MonitorInfo};
use crate::clock::format_time;
use crate::editor::document::{Border, Edge, EdgeEffect, FieldKind};
use crate::image::{
    blend_area, blend_pixel, draw_over, fill_area, RgbaImage,
};
use crate::px::Rgba;
use crate::text::{decimal_chars, from_chars, push_chars, push_text, to_chars};

verus! {

// ---------------------------------------------------------------------------
// Colours
// ---------------------------------------------------------------------------

/// Half the brightness, same alpha: the outline of a step marker.
pub fn darken(c: Rgba) -> (r: Rgba)
    ensures
        r == (Rgba { r: c.r / 2, g: c.g / 2, b: c.b / 2, a: c.a }),
{
    Rgba { r: c.r / 2, g: c.g / 2, b: c.b / 2, a: c.a }
}

/// Three tenths of the brightness at a fixed alpha: the shadow of an arrow.
pub fn shadow_tint(c: Rgba) -> (r: Rgba)
    ensures
        r == (Rgba {
            r: (c.r * 3 / 10) as u8,
            g: (c.g * 3 / 10) as u8,
            b: (c.b * 3 / 10) as u8,
            a: 170,
        }),
{
    Rgba {
        r: (c.r as u32 * 3 / 10) as u8,
        g: (c.g as u32 * 3 / 10) as u8,
        b: (c.b as u32 * 3 / 10) as u8,
        a: 170,
    }
}

// ---------------------------------------------------------------------------
// Crops and supersampling
// ---------------------------------------------------------------------------

/// Copies a rectangle out of an image.
pub fn crop(img: &RgbaImage, x0: u32, y0: u32, w: u32, h: u32) -> (r: RgbaImage)
    requires
        img.wf(),
        x0 + w <= img.width,
        y0 + h <= img.height,
        4 * (w * h) <= usize::MAX,
    ensures
        r.wf(),
        r.width == w,
        r.height == h,
        forall|x: int, y: int| r.inside(x, y) ==> #[trigger] r.at(x, y) == img.at(x0 + x, y0 + y),
{
    let clear = Rgba { r: 0, g: 0, b: 0, a: 0 };
    let mut out = RgbaImage::from_pixel(w, h, clear);
    let mut cy: u32 = 0;
    while cy < h
        invariant
            cy <= h,
            img.wf(),
            x0 + w <= img.width,
            y0 + h <= img.height,
            out.wf(),
            out.width == w,
            out.height == h,
            forall|x: int, y: int|
                out.inside(x, y) && y < cy ==> #[trigger] out.at(x, y) == img.at(x0 + x, y0 + y),
        decreases h - cy,
    {
        let mut cx: u32 = 0;
        while cx < w
            invariant
                cx <= w,
                cy < h,
                img.wf(),
                x0 + w <= img.width,
                y0 + h <= img.height,
                out.wf(),
                out.width == w,
                out.height == h,
                forall|x: int, y: int|
                    out.inside(x, y) && (y < cy || (y == cy && x < cx)) ==> #[trigger] out.at(x, y)
                        == img.at(x0 + x, y0 + y),
            decreases w - cx,
        {
            let c = img.get_pixel(x0 + cx, y0 + cy);
            out.put_pixel(cx, cy, c);
            cx += 1;
        }
        cy += 1;
    }
    out
}

/// A colour channel by number: red, green, blue, alpha.
pub open spec fn channel(c: Rgba, k: int) -> int {
    if k == 0 {
        c.r as int
    } else if k == 1 {
        c.g as int
    } else if k == 2 {
        c.b as int
    } else {
        c.a as int
    }
}

/// The sum of one channel over the first `n` pixels of a 4 x 4 block.
pub open spec fn block_sum(hi: &RgbaImage, bx: int, by: int, k: int, n: nat) -> int
    decreases n,
{
    if n == 0 {
        0
    } else {
        block_sum(hi, bx, by, k, (n - 1) as nat) + channel(
            hi.at(4 * bx + (n - 1) % 4, 4 * by + (n - 1) / 4),
            k,
        )
    }
}

/// The mean colour of a 4 x 4 block, rounded down.
pub open spec fn block_mean(hi: &RgbaImage, bx: int, by: int) -> Rgba {
    Rgba {
        r: (block_sum(hi, bx, by, 0, 16) / 16) as u8,
        g: (block_sum(hi, bx, by, 1, 16) / 16) as u8,
        b: (block_sum(hi, bx, by, 2, 16) / 16) as u8,
        a: (block_sum(hi, bx, by, 3, 16) / 16) as u8,
    }
}

fn mean_of_block(hi: &RgbaImage, bx: u32, by: u32) -> (r: Rgba)
    requires
        hi.wf(),
        4 * bx + 4 <= hi.width,
        4 * by + 4 <= hi.height,
    ensures
        r == block_mean(hi, bx as int, by as int),
{
    let mut sr: u32 = 0;
    let mut sg: u32 = 0;
    let mut sb: u32 = 0;
    let mut sa: u32 = 0;
    let mut n: u32 = 0;
    while n < 16
        invariant
            n <= 16,
            hi.wf(),
            4 * bx + 4 <= hi.width,
            4 * by + 4 <= hi.height,
            sr == block_sum(hi, bx as int, by as int, 0, n as nat),
            sg == block_sum(hi, bx as int, by as int, 1, n as nat),
            sb == block_sum(hi, bx as int, by as int, 2, n as nat),
            sa == block_sum(hi, bx as int, by as int, 3, n as nat),
            sr <= 255 * n,
            sg <= 255 * n,
            sb <= 255 * n,
            sa <= 255 * n,
        decreases 16 - n,
    {
        let c = hi.get_pixel(4 * bx + n % 4, 4 * by + n / 4);
        sr += c.r as u32;
        sg += c.g as u32;
        sb += c.b as u32;
        sa += c.a as u32;
        n += 1;
    }
    Rgba { r: (sr / 16) as u8, g: (sg / 16) as u8, b: (sb / 16) as u8, a: (sa / 16) as u8 }
}

/// Draws an image rendered at four times the size over `canvas` with its
/// top-left corner at (x0, y0): each 4 x 4 block becomes one pixel of its mean
/// colour.
pub fn downsample_over(canvas: &mut RgbaImage, hi: &RgbaImage, x0: u32, y0: u32)
    requires
        old(canvas).wf(),
        hi.wf(),
        x0 + hi.width / 4 <= old(canvas).width,
        y0 + hi.height / 4 <= old(canvas).height,
    ensures
        final(canvas).wf(),
        final(canvas).same_size(old(canvas)),
        forall|x: int, y: int|
            final(canvas).inside(x, y) ==> #[trigger] final(canvas).at(x, y) == (if x0 <= x < x0
                + hi.width / 4 && y0 <= y < y0 + hi.height / 4 {
                crate::image::over(old(canvas).at(x, y), block_mean(hi, x - x0, y - y0))
            } else {
                old(canvas).at(x, y)
            }),
{
    let w: u32 = hi.width / 4;
    let h: u32 = hi.height / 4;
    let mut dy: u32 = 0;
    while dy < h
        invariant
            dy <= h,
            w == hi.width / 4,
            h == hi.height / 4,
            hi.wf(),
            canvas.wf(),
            canvas.same_size(old(canvas)),
            x0 + w <= canvas.width,
            y0 + h <= canvas.height,
            forall|x: int, y: int|
                canvas.inside(x, y) ==> #[trigger] canvas.at(x, y) == (if x0 <= x < x0 + w && y0
                    <= y < y0 + dy {
                    crate::image::over(old(canvas).at(x, y), block_mean(hi, x - x0, y - y0))
                } else {
                    old(canvas).at(x, y)
                }),
        decreases h - dy,
    {
        let mut dx: u32 = 0;
        while dx < w
            invariant
                dx <= w,
                dy < h,
                w == hi.width / 4,
                h == hi.height / 4,
                hi.wf(),
                canvas.wf(),
                canvas.same_size(old(canvas)),
                x0 + w <= canvas.width,
                y0 + h <= canvas.height,
                forall|x: int, y: int|
                    canvas.inside(x, y) ==> #[trigger] canvas.at(x, y) == (if x0 <= x < x0 + w && y0
                        <= y < y0 + dy || (y == y0 + dy && x0 <= x < x0 + dx) {
                        crate::image::over(old(canvas).at(x, y), block_mean(hi, x - x0, y - y0))
                    } else {
                        old(canvas).at(x, y)
                    }),
            decreases w - dx,
        {
            let mean = mean_of_block(hi, dx, dy);
            blend_pixel(canvas, x0 + dx, y0 + dy, mean);
            dx += 1;
        }
        dy += 1;
    }
}

// ---------------------------------------------------------------------------
// Torn edges
// ---------------------------------------------------------------------------

/// The noise value of a tooth, between 0 and 65535: a fixed hash of the
/// tooth's number and the edge's salt.
pub open spec fn noise_of(n: u32, salt: u32) -> u32 {
    let s = ((n * 2654435761) % 0x1_0000_0000 + (salt * 40503) % 0x1_0000_0000) % 0x1_0000_0000;
    let t = s as u32 ^ ((s as u32) >> 16);
    (((t * 0x85eb_ca6b) % 0x1_0000_0000) as u32) & 0xffff
}

/// The noise value of a tooth.
pub fn tooth_noise(n: u32, salt: u32) -> (r: u32)
    ensures
        r == noise_of(n, salt),
        r <= 0xffff,
{
    let a: u64 = (n as u64 * 2654435761u64) % 0x1_0000_0000;
    let b: u64 = (salt as u64 * 40503) % 0x1_0000_0000;
    let s: u32 = ((a + b) % 0x1_0000_0000) as u32;
    let t: u32 = s ^ (s >> 16);
    let m: u32 = ((t as u64 * 0x85eb_ca6b) % 0x1_0000_0000) as u32;
    assert(m & 0xffff <= 0xffff) by (bit_vector);
    m & 0xffff
}

/// The salt that keeps two adjacent torn edges from sharing their pattern.
pub open spec fn salt_of(edge: Edge) -> u32 {
    match edge {
        Edge::Top => 1,
        Edge::Bottom => 2,
        Edge::Left => 3,
        Edge::Right => 4,
    }
}

pub fn edge_salt(edge: Edge) -> (r: u32)
    ensures
        r == salt_of(edge),
{
    match edge {
        Edge::Top => 1,
        Edge::Bottom => 2,
        Edge::Left => 3,
        Edge::Right => 4,
    }
}

/// How deep each edge is torn: one depth per column for the top and bottom,
/// one per row for the left and right.
#[derive(Debug)]
pub struct TornDepths {
    pub top: Vec<u32>,
    pub bottom: Vec<u32>,
    pub left: Vec<u32>,
    pub right: Vec<u32>,
}

impl TornDepths {
    pub open spec fn of(&self, edge: Edge) -> Seq<u32> {
        match edge {
            Edge::Top => self.top@,
            Edge::Bottom => self.bottom@,
            Edge::Left => self.left@,
            Edge::Right => self.right@,
        }
    }
}

/// How many depths an edge of the image needs.
pub open spec fn edge_length(img: &RgbaImage, edge: Edge) -> nat {
    match edge {
        Edge::Top | Edge::Bottom => img.width as nat,
        Edge::Left | Edge::Right => img.height as nat,
    }
}

/// Whether a pixel lies in the teeth of one edge.
pub open spec fn is_torn(img: &RgbaImage, edge: Edge, depths: Seq<u32>, x: int, y: int) -> bool {
    match edge {
        Edge::Top => y < depths[x],
        Edge::Bottom => img.height - 1 - y < depths[x],
        Edge::Left => x < depths[y],
        Edge::Right => img.width - 1 - x < depths[y],
    }
}

/// Makes the pixels in the teeth of one edge transparent.
fn tear_edge(img: &mut RgbaImage, edge: Edge, depths: &Vec<u32>)
    requires
        old(img).wf(),
        depths@.len() == edge_length(old(img), edge),
    ensures
        final(img).wf(),
        final(img).same_size(old(img)),
        forall|x: int, y: int|
            final(img).inside(x, y) ==> #[trigger] final(img).at(x, y) == (if is_torn(
                old(img),
                edge,
                depths@,
                x,
                y,
            ) {
                Rgba { r: 0, g: 0, b: 0, a: 0 }
            } else {
                old(img).at(x, y)
            }),
{
    let clear = Rgba { r: 0, g: 0, b: 0, a: 0 };
    let mut cy: u32 = 0;
    while cy < img.height
        invariant
            cy <= img.height,
            img.wf(),
            img.same_size(old(img)),
            depths@.len() == edge_length(old(img), edge),
            clear == (Rgba { r: 0, g: 0, b: 0, a: 0 }),
            forall|x: int, y: int|
                img.inside(x, y) ==> #[trigger] img.at(x, y) == (if y < cy && is_torn(
                    old(img),
                    edge,
                    depths@,
                    x,
                    y,
                ) {
                    clear
                } else {
                    old(img).at(x, y)
                }),
        decreases img.height - cy,
    {
        let mut cx: u32 = 0;
        while cx < img.width
            invariant
                cx <= img.width,
                cy < img.height,
                img.wf(),
                img.same_size(old(img)),
                depths@.len() == edge_length(old(img), edge),
                clear == (Rgba { r: 0, g: 0, b: 0, a: 0 }),
                forall|x: int, y: int|
                    img.inside(x, y) ==> #[trigger] img.at(x, y) == (if (y < cy || (y == cy && x
                        < cx)) && is_torn(old(img), edge, depths@, x, y) {
                        clear
                    } else {
                        old(img).at(x, y)
                    }),
            decreases img.width - cx,
        {
            let torn: bool = match edge {
                Edge::Top => cy < depths[cx as usize],
                Edge::Bottom => img.height - 1 - cy < depths[cx as usize],
                Edge::Left => cx < depths[cy as usize],
                Edge::Right => img.width - 1 - cx < depths[cy as usize],
            };
            if torn {
                img.put_pixel(cx, cy, clear);
            }
            cx += 1;
        }
        cy += 1;
    }
}

/// Cuts the teeth out of every torn edge. The size does not change.
pub fn apply_torn_edge(img: &RgbaImage, effect: EdgeEffect, depths: &TornDepths) -> (r: RgbaImage)
    requires
        img.wf(),
        forall|e: Edge| effect.tears(e) ==> #[trigger] depths.of(e).len() == edge_length(img, e),
    ensures
        r.wf(),
        r.same_size(img),
        forall|x: int, y: int|
            r.inside(x, y) ==> #[trigger] r.at(x, y) == (if exists|e: Edge|
                effect.tears(e) && is_torn(img, e, #[trigger] depths.of(e), x, y) {
                Rgba { r: 0, g: 0, b: 0, a: 0 }
            } else {
                img.at(x, y)
            }),
        crate::editor::flatten::edge_done(img, Some((effect, *depths)), &r),
{
    let edges = effect.active_edges();
    let mut out = img.clone();
    let mut k: usize = 0;
    while k < edges.len()
        invariant
            k <= edges@.len(),
            img.wf(),
            out.wf(),
            out.same_size(img),
            forall|e: Edge| edges@.contains(e) == effect.tears(e),
            forall|e: Edge|
                effect.tears(e) ==> #[trigger] depths.of(e).len() == edge_length(img, e),
            forall|x: int, y: int|
                out.inside(x, y) ==> #[trigger] out.at(x, y) == (if exists|i: int|
                    0 <= i < k && is_torn(
                        img,
                        #[trigger] edges@[i],
                        depths.of(edges@[i]),
                        x,
                        y,
                    ) {
                    Rgba { r: 0, g: 0, b: 0, a: 0 }
                } else {
                    img.at(x, y)
                }),
        decreases edges@.len() - k,
    {
        let e = edges[k];
        assert(edges@.contains(e));
        assert(depths.of(e).len() == edge_length(img, e));
        let ghost before = out;
        match e {
            Edge::Top => tear_edge(&mut out, e, &depths.top),
            Edge::Bottom => tear_edge(&mut out, e, &depths.bottom),
            Edge::Left => tear_edge(&mut out, e, &depths.left),
            Edge::Right => tear_edge(&mut out, e, &depths.right),
        }
        proof {
            assert forall|x: int, y: int| out.inside(x, y) implies #[trigger] out.at(x, y) == (
            if exists|i: int|
                0 <= i < k + 1 && is_torn(
                    img,
                    #[trigger] edges@[i],
                    depths.of(edges@[i]),
                    x,
                    y,
                ) {
                Rgba { r: 0, g: 0, b: 0, a: 0 }
            } else {
                img.at(x, y)
            }) by {
                assert(before.inside(x, y));
                let now = is_torn(img, e, depths.of(e), x, y);
                assert(is_torn(&before, e, depths.of(e), x, y) == now);
                if now {
                    assert(is_torn(img, edges@[k as int], depths.of(edges@[k as int]), x, y));
                } else if exists|i: int|
                    0 <= i < k && is_torn(
                        img,
                        #[trigger] edges@[i],
                        depths.of(edges@[i]),
                        x,
                        y,
                    ) {
                    let i = choose|i: int|
                        0 <= i < k && is_torn(
                            img,
                            #[trigger] edges@[i],
                            depths.of(edges@[i]),
                            x,
                            y,
                        );
                    assert(0 <= i < k + 1);
                }
            }
        }
        k += 1;
    }
    proof {
        assert forall|x: int, y: int| out.inside(x, y) implies #[trigger] out.at(x, y) == (
        if exists|e: Edge|
            effect.tears(e) && is_torn(img, e, #[trigger] depths.of(e), x, y) {
            Rgba { r: 0, g: 0, b: 0, a: 0 }
        } else {
            img.at(x, y)
        }) by {
            if exists|e: Edge|
                effect.tears(e) && is_torn(img, e, #[trigger] depths.of(e), x, y) {
                let e = choose|e: Edge|
                    effect.tears(e) && is_torn(img, e, #[trigger] depths.of(e), x, y);
                assert(edges@.contains(e));
                let i = choose|i: int| 0 <= i < edges@.len() && edges@[i] == e;
                assert(is_torn(img, edges@[i], depths.of(edges@[i]), x, y));
            } else {
                assert forall|i: int| 0 <= i < k implies !is_torn(
                    img,
                    #[trigger] edges@[i],
                    depths.of(edges@[i]),
                    x,
                    y,
                ) by {
                    assert(edges@.contains(edges@[i]));
                }
            }
        }
        let edge = Some((effect, *depths));
        assert(edge->Some_0.0 == effect && edge->Some_0.1 == *depths);
        assert(crate::editor::flatten::edge_done(img, edge, &out));
    }
    out
}

// ---------------------------------------------------------------------------
// Border, matte and drop shadow
// ---------------------------------------------------------------------------

/// The sizes of a border in whole pixels.
#[derive(Debug, Clone, Copy, PartialEq, Eq, Structural)]
pub struct BorderMetrics {
    pub border: u32,
    pub matte: u32,
    pub shadow_radius: u32,
    pub shadow_dx: i32,
    pub shadow_dy: i32,
}

impl BorderMetrics {
    /// Thickness of the frame around the image: border and matte.
    pub open spec fn frame(self) -> int {
        self.border + self.matte
    }

    pub open spec fn pad_left(self) -> int {
        self.frame() + self.shadow_radius + (if self.shadow_dx < 0 {
            -self.shadow_dx
        } else {
            0
        })
    }

    pub open spec fn pad_right(self) -> int {
        self.frame() + self.shadow_radius + (if self.shadow_dx > 0 {
            self.shadow_dx as int
        } else {
            0
        })
    }

    pub open spec fn pad_top(self) -> int {
        self.frame() + self.shadow_radius + (if self.shadow_dy < 0 {
            -self.shadow_dy
        } else {
            0
        })
    }

    pub open spec fn pad_bottom(self) -> int {
        self.frame() + self.shadow_radius + (if self.shadow_dy > 0 {
            self.shadow_dy as int
        } else {
            0
        })
    }

    /// Width of the bordered image.
    pub open spec fn new_width(self, w: int) -> int {
        w + self.pad_left() + self.pad_right()
    }

    /// Height of the bordered image.
    pub open spec fn new_height(self, h: int) -> int {
        h + self.pad_top() + self.pad_bottom()
    }

    /// Whether the bordered image can be held: its sides are 31-bit numbers
    /// and its bytes can be counted.
    pub open spec fn fits(self, w: int, h: int) -> bool {
        &&& self.new_width(w) <= 0x7fff_ffff
        &&& self.new_height(h) <= 0x7fff_ffff
        &&& 4 * (self.new_width(w) * self.new_height(h)) <= usize::MAX
    }
}

/// Whether a border casts a shadow.
pub open spec fn has_shadow(b: Border, m: BorderMetrics) -> bool {
    m.shadow_radius > 0 || (b.shadow_color.a > 0 && (m.shadow_dx != 0 || m.shadow_dy != 0))
}

/// Whether (x, y) of the bordered image lies within `margin` pixels around the
/// content of a `w` x `h` image.
pub open spec fn near_content(
    m: BorderMetrics,
    w: int,
    h: int,
    margin: int,
    x: int,
    y: int,
) -> bool {
    crate::image::in_area(
        x,
        y,
        m.pad_left() - margin,
        m.pad_top() - margin,
        m.pad_left() + w + margin,
        m.pad_top() + h + margin,
    )
}

/// The shadow layer at one pixel: the framed content moved by the shadow
/// offset, in the shadow colour, on a transparent ground.
pub open spec fn shadow_at(b: Border, m: BorderMetrics, w: int, h: int, x: int, y: int) -> Rgba {
    if has_shadow(b, m) && near_content(m, w, h, m.frame(), x - m.shadow_dx, y - m.shadow_dy) {
        b.shadow_color
    } else {
        Rgba { r: 0, g: 0, b: 0, a: 0 }
    }
}

/// Reports whether the bordered image can be held.
pub fn border_fits(m: BorderMetrics, w: u32, h: u32) -> (r: bool)
    ensures
        r == m.fits(w as int, h as int),
{
    let dx: u64 = if m.shadow_dx < 0 {
        (-(m.shadow_dx as i64)) as u64
    } else {
        m.shadow_dx as u64
    };
    let dy: u64 = if m.shadow_dy < 0 {
        (-(m.shadow_dy as i64)) as u64
    } else {
        m.shadow_dy as u64
    };
    let around: u64 = 2 * (m.border as u64 + m.matte as u64 + m.shadow_radius as u64);
    let nw: u64 = w as u64 + around + dx;
    let nh: u64 = h as u64 + around + dy;
    assert(nw == m.new_width(w as int));
    assert(nh == m.new_height(h as int));
    if nw > 0x7fff_ffff || nh > 0x7fff_ffff {
        return false;
    }
    assert(nw * nh <= 0x7fff_ffff * 0x7fff_ffff) by (nonlinear_arith)
        requires
            0 <= nw <= 0x7fff_ffff,
            0 <= nh <= 0x7fff_ffff,
    ;
    let bytes: u64 = 4 * (nw * nh);
    bytes <= usize::MAX as u64
}

/// Paints the shadow of a bordered image, sharp-edged, on a transparent
/// canvas of the final size. With a shadow radius, the caller blurs it.
pub fn shadow_layer(w: u32, h: u32, b: &Border, m: BorderMetrics) -> (r: RgbaImage)
    requires
        m.fits(w as int, h as int),
    ensures
        r.wf(),
        r.width == m.new_width(w as int),
        r.height == m.new_height(h as int),
        forall|x: int, y: int|
            r.inside(x, y) ==> #[trigger] r.at(x, y) == shadow_at(
                *b,
                m,
                w as int,
                h as int,
                x,
                y,
            ),
{
    let clear = Rgba { r: 0, g: 0, b: 0, a: 0 };
    let frame: u32 = m.border + m.matte;
    let right_dx: u32 = if m.shadow_dx > 0 {
        m.shadow_dx as u32
    } else {
        0
    };
    let left_dx: u32 = if m.shadow_dx < 0 {
        (-(m.shadow_dx as i64)) as u32
    } else {
        0
    };
    let down_dy: u32 = if m.shadow_dy > 0 {
        m.shadow_dy as u32
    } else {
        0
    };
    let up_dy: u32 = if m.shadow_dy < 0 {
        (-(m.shadow_dy as i64)) as u32
    } else {
        0
    };
    let nw: u32 = w + 2 * frame + 2 * m.shadow_radius + left_dx + right_dx;
    let nh: u32 = h + 2 * frame + 2 * m.shadow_radius + up_dy + down_dy;
    let mut out = RgbaImage::from_pixel(nw, nh, clear);
    if m.shadow_radius > 0 || (b.shadow_color.a > 0 && (m.shadow_dx != 0 || m.shadow_dy != 0)) {
        let x0: u32 = m.shadow_radius + right_dx;
        let y0: u32 = m.shadow_radius + down_dy;
        fill_area(
            &mut out,
            x0,
            y0,
            x0 + w + 2 * frame,
            y0 + h + 2 * frame,
            b.shadow_color,
        );
    }
    out
}

/// The bordered image at one pixel, over a (possibly blurred) shadow: the frame
/// in the border colour, the matte ring inside it, the image on top.
pub open spec fn bordered_at(
    img: &RgbaImage,
    b: Border,
    m: BorderMetrics,
    ground: Rgba,
    x: int,
    y: int,
) -> Rgba {
    let w = img.width as int;
    let h = img.height as int;
    let framed = if m.frame() > 0 && near_content(m, w, h, m.frame(), x, y) {
        crate::image::over(ground, b.color)
    } else {
        ground
    };
    let matted = if m.matte > 0 && near_content(m, w, h, m.matte as int, x, y) {
        crate::image::over(framed, b.matte_color)
    } else {
        framed
    };
    if near_content(m, w, h, 0, x, y) {
        crate::image::over(matted, img.at(x - m.pad_left(), y - m.pad_top()))
    } else {
        matted
    }
}

/// Draws the frame, the matte and the image over a shadow layer.
pub fn compose_border(
    img: &RgbaImage,
    b: &Border,
    m: BorderMetrics,
    layer: RgbaImage,
) -> (r: RgbaImage)
    requires
        img.wf(),
        m.fits(img.width as int, img.height as int),
        layer.wf(),
        layer.width == m.new_width(img.width as int),
        layer.height == m.new_height(img.height as int),
    ensures
        r.wf(),
        r.same_size(&layer),
        forall|x: int, y: int|
            r.inside(x, y) ==> #[trigger] r.at(x, y) == bordered_at(
                img,
                *b,
                m,
                layer.at(x, y),
                x,
                y,
            ),
{
    let mut out = layer;
    let frame: u32 = m.border + m.matte;
    let left_dx: u32 = if m.shadow_dx < 0 {
        (-(m.shadow_dx as i64)) as u32
    } else {
        0
    };
    let up_dy: u32 = if m.shadow_dy < 0 {
        (-(m.shadow_dy as i64)) as u32
    } else {
        0
    };
    let cx: u32 = frame + m.shadow_radius + left_dx;
    let cy: u32 = frame + m.shadow_radius + up_dy;
    if frame > 0 {
        blend_area(
            &mut out,
            cx - frame,
            cy - frame,
            cx + img.width + frame,
            cy + img.height + frame,
            b.color,
        );
    }
    if m.matte > 0 {
        blend_area(
            &mut out,
            cx - m.matte,
            cy - m.matte,
            cx + img.width + m.matte,
            cy + img.height + m.matte,
            b.matte_color,
        );
    }
    draw_over(&mut out, img, cx as i64, cy as i64);
    out
}

/// The bordered image: the shadow, softened if it has a radius, then the frame, the
/// matte and the image over it.
pub fn apply_border<B: Fn(RgbaImage) -> RgbaImage>(
    img: &RgbaImage,
    b: &Border,
    m: BorderMetrics,
    soften: &B,
) -> (r: RgbaImage)
    requires
        img.wf(),
        m.fits(img.width as int, img.height as int),
        crate::editor::flatten::keeps_size(*soften),
    ensures
        r.wf(),
        r.width == m.new_width(img.width as int),
        r.height == m.new_height(img.height as int),
        crate::editor::flatten::border_done(img, Some((*b, m)), *soften, &r),
{
    let layer = shadow_layer(img.width, img.height, b, m);
    assert(crate::editor::flatten::is_shadow(img, *b, m, &layer));
    let ghost plain = layer;
    let ground = if m.shadow_radius == 0 {
        layer
    } else {
        soften(layer)
    };
    assert(ground.wf() && ground.same_size(&plain));
    let ghost soft = ground;
    let out = compose_border(img, b, m, ground);
    proof {
        let border = Some((*b, m));
        assert(crate::editor::flatten::is_shadow(
            img,
            border->Some_0.0,
            border->Some_0.1,
            &plain,
        ) && soft.wf());
        assert(crate::editor::flatten::border_done(img, border, *soften, &out));
    }
    out
}

/// A border keeps an opaque image: its pixels stand unchanged inside the frame.
pub proof fn law_border_keeps_opaque_content(
    img: &RgbaImage,
    b: Border,
    m: BorderMetrics,
    ground: Rgba,
    x: int,
    y: int,
)
    requires
        img.inside(x, y),
        img.at(x, y).a == 255,
    ensures
        bordered_at(img, b, m, ground, x + m.pad_left(), y + m.pad_top()) == img.at(x, y),
{
    assert forall|below: Rgba| #[trigger] crate::image::over(below, img.at(x, y)) == img.at(
        x,
        y,
    ) by {
        crate::image::law_blend_extremes(below, img.at(x, y));
    }
}

/// A border grows the image by twice its frame and shadow radius plus the
/// shadow offset, on each axis.
pub proof fn law_border_growth(m: BorderMetrics, w: int, h: int)
    ensures
        m.new_width(w) == w + 2 * m.frame() + 2 * m.shadow_radius + (if m.shadow_dx < 0 {
            -m.shadow_dx
        } else {
            m.shadow_dx as int
        }),
        m.new_height(h) == h + 2 * m.frame() + 2 * m.shadow_radius + (if m.shadow_dy < 0 {
            -m.shadow_dy
        } else {
            m.shadow_dy as int
        }),
{
}

// ---------------------------------------------------------------------------
// Capture info
// ---------------------------------------------------------------------------

/// A monitor as the banner shows it: its size, starred if it is the primary.
pub open spec fn monitor_text(m: MonitorInfo) -> Seq<char> {
    let size = crate::text::decimal(m.rect.width as nat) + "x"@ + crate::text::decimal(
        m.rect.height as nat,
    );
    if m.is_primary {
        size + "*"@
    } else {
        size
    }
}

/// The monitors, separated by spaces.
pub open spec fn monitors_text(s: Seq<MonitorInfo>) -> Seq<char>
    decreases s.len(),
{
    if s.len() == 0 {
        Seq::empty()
    } else if s.len() == 1 {
        monitor_text(s[0])
    } else {
        monitors_text(s.drop_last()) + " "@ + monitor_text(s.last())
    }
}

/// The value of a field, if the metadata has one.
pub open spec fn field_value(m: MetadataView, f: FieldKind) -> Option<Seq<char>> {
    match f {
        FieldKind::Timestamp => Some(crate::clock::date_time_text(m.captured_at)),
        FieldKind::WindowTitle => m.foreground_title,
        FieldKind::ProcessName => m.foreground_process,
        FieldKind::OsVersion => Some(m.os_version),
        FieldKind::MonitorInfo => if m.monitors.len() == 0 {
            None
        } else {
            Some(monitors_text(m.monitors))
        },
    }
}

/// The lines of the banner: one per field that has a value, in order.
pub open spec fn info_lines(m: MetadataView, fields: Seq<FieldKind>) -> Seq<Seq<char>>
    decreases fields.len(),
{
    if fields.len() == 0 {
        Seq::empty()
    } else {
        let head = info_lines(m, fields.drop_last());
        match field_value(m, fields.last()) {
            Some(v) => head.push(fields.last().text() + ": "@ + v),
            None => head,
        }
    }
}

fn monitor_chars(m: &MonitorInfo) -> (r: Vec<char>)
    ensures
        r@ == monitor_text(*m),
{
    let mut out = decimal_chars(m.rect.width as u64);
    push_text(&mut out, "x");
    let h = decimal_chars(m.rect.height as u64);
    push_chars(&mut out, h.as_slice());
    if m.is_primary {
        push_text(&mut out, "*");
    }
    out
}

fn monitors_chars(s: &Vec<MonitorInfo>) -> (r: Vec<char>)
    ensures
        r@ == monitors_text(s@),
{
    let mut out: Vec<char> = Vec::new();
    let mut i: usize = 0;
    while i < s.len()
        invariant
            i <= s@.len(),
            out@ == monitors_text(s@.take(i as int)),
        decreases s@.len() - i,
    {
        assert(s@.take(i + 1).drop_last() =~= s@.take(i as int));
        let m = monitor_chars(&s[i]);
        if i > 0 {
            push_text(&mut out, " ");
        }
        push_chars(&mut out, m.as_slice());
        assert(i == 0 ==> out@ =~= monitor_text(s@[0]));
        i += 1;
    }
    assert(s@.take(i as int) =~= s@);
    out
}

fn value_chars(m: &CaptureMetadata, f: FieldKind) -> (r: Option<Vec<char>>)
    requires
        m.captured_at.wf(),
    ensures
        match r {
            Some(v) => field_value(m@, f) == Some(v@),
            None => field_value(m@, f) is None,
        },
{
    match f {
        FieldKind::Timestamp => {
            let t = format_time(&m.captured_at, "%Y-%m-%d %H:%M:%S");
            Some(to_chars(t.as_str()))
        },
        FieldKind::WindowTitle => match &m.foreground_title {
            Some(t) => Some(to_chars(t.as_str())),
            None => None,
        },
        FieldKind::ProcessName => match &m.foreground_process {
            Some(t) => Some(to_chars(t.as_str())),
            None => None,
        },
        FieldKind::OsVersion => Some(to_chars(m.os_version.as_str())),
        FieldKind::MonitorInfo => if m.monitors.len() == 0 {
            None
        } else {
            Some(monitors_chars(&m.monitors))
        },
    }
}

/// Formats the selected metadata fields as a list of lines. Without metadata
/// there are none; a field without a value is left out.
pub fn capture_info_lines(metadata: Option<&CaptureMetadata>, fields: &Vec<FieldKind>) -> (r: Vec<
    String,
>)
    requires
        metadata matches Some(m) ==> m.captured_at.wf(),
    ensures
        crate::text::strings(r@) == (match metadata {
            Some(m) => info_lines(m@, fields@),
            None => Seq::empty(),
        }),
{
    let mut out: Vec<String> = Vec::new();
    assert(crate::text::strings(out@) =~= Seq::empty());
    match metadata {
        Some(m) => {
            let mut i: usize = 0;
            while i < fields.len()
                invariant
                    i <= fields@.len(),
                    m.captured_at.wf(),
                    crate::text::strings(out@) == info_lines(m@, fields@.take(i as int)),
                decreases fields@.len() - i,
            {
                assert(fields@.take(i + 1).drop_last() =~= fields@.take(i as int));
                let f = fields[i];
                match value_chars(m, f) {
                    Some(v) => {
                        let mut line = to_chars(f.label());
                        push_text(&mut line, ": ");
                        push_chars(&mut line, v.as_slice());
                        let ghost prev = out@;
                        let text = from_chars(line.as_slice());
                        out.push(text);
                        assert(crate::text::strings(out@) =~= crate::text::strings(prev).push(
                            text@,
                        ));
                    },
                    None => {},
                }
                i += 1;
            }
            assert(fields@.take(i as int) =~= fields@);
        },
        None => {},
    }
    out
}

// ---------------------------------------------------------------------------
// Laws of the torn edges
// ---------------------------------------------------------------------------

/// Which pixels are cleared: those of a row less than the depth away from a torn left
/// or right side, and those of a column less than the depth away from a torn top or
/// bottom. Every other pixel stays. With no side switched on, the one of the choice is
/// torn.
pub proof fn law_torn_pixels_lie_at_their_edge(
    img: &RgbaImage,
    effect: EdgeEffect,
    depths: TornDepths,
    after: &RgbaImage,
    x: int,
    y: int,
)
    requires
        crate::editor::flatten::edge_done(img, Some((effect, depths)), after),
        img.inside(x, y),
    ensures
        ({
            let none = !effect.top && !effect.bottom && !effect.left && !effect.right;
            let left = effect.left || (none && effect.edge == Edge::Left);
            let right = effect.right || (none && effect.edge == Edge::Right);
            let top = effect.top || (none && effect.edge == Edge::Top);
            let bottom = effect.bottom || (none && effect.edge == Edge::Bottom);
            let cleared = (left && x < depths.left@[y]) || (right && x >= img.width
                - depths.right@[y]) || (top && y < depths.top@[x]) || (bottom && y >= img.height
                - depths.bottom@[x]);
            &&& cleared ==> after.at(x, y) == (Rgba { r: 0, g: 0, b: 0, a: 0 })
            &&& !cleared ==> after.at(x, y) == img.at(x, y)
            &&& after.width == img.width && after.height == img.height
        }),
{
    let d = Some((effect, depths))->Some_0.1;
    assert(d == depths);
    assert(after.inside(x, y));
    let some = exists|e: Edge| effect.tears(e) && is_torn(img, e, #[trigger] d.of(e), x, y);
    assert(after.at(x, y) == if some {
        Rgba { r: 0, g: 0, b: 0, a: 0 }
    } else {
        img.at(x, y)
    });
    if effect.tears(Edge::Left) && x < depths.left@[y] {
        assert(is_torn(img, Edge::Left, d.of(Edge::Left), x, y));
    }
    if effect.tears(Edge::Right) && x >= img.width - depths.right@[y] {
        assert(is_torn(img, Edge::Right, d.of(Edge::Right), x, y));
    }
    if effect.tears(Edge::Top) && y < depths.top@[x] {
        assert(is_torn(img, Edge::Top, d.of(Edge::Top), x, y));
    }
    if effect.tears(Edge::Bottom) && y >= img.height - depths.bottom@[x] {
        assert(is_torn(img, Edge::Bottom, d.of(Edge::Bottom), x, y));
    }
    if some {
        let e = choose|e: Edge| effect.tears(e) && is_torn(img, e, #[trigger] d.of(e), x, y);
        assert(e == Edge::Left || e == Edge::Right || e == Edge::Top || e == Edge::Bottom);
    }
}

/// Tearing the right side of a picture is tearing the left side of its mirror image,
/// tearing the bottom is tearing the top of the picture turned upside down, and tearing
/// the top is tearing the left of the picture with its sides exchanged.
pub proof fn law_tearing_is_symmetric(
    img: &RgbaImage,
    exchanged: &RgbaImage,
    depths: Seq<u32>,
    x: int,
    y: int,
)
    requires
        img.inside(x, y),
        exchanged.width == img.height,
        exchanged.height == img.width,
    ensures
        is_torn(img, Edge::Right, depths, x, y) == is_torn(
            img,
            Edge::Left,
            depths,
            img.width - 1 - x,
            y,
        ),
        is_torn(img, Edge::Bottom, depths, x, y) == is_torn(
            img,
            Edge::Top,
            depths,
            x,
            img.height - 1 - y,
        ),
        is_torn(img, Edge::Top, depths, x, y) == is_torn(exchanged, Edge::Left, depths, y, x),
        is_torn(img, Edge::Left, depths, 0, y) <==> depths[y] > 0,
        is_torn(img, Edge::Left, depths, x, y) && x > 0 ==> is_torn(
            img,
            Edge::Left,
            depths,
            x - 1,
            y,
        ),
{
}

/// The frame, the matte and the picture lie inside one another in the bordered
/// picture, each as wide as its metrics say, with the picture moved by the
/// shadow's offset only where the shadow falls to the left or above it.
pub proof fn law_border_layers(
    img: &RgbaImage,
    b: Border,
    m: BorderMetrics,
    ground: Rgba,
    x: int,
    y: int,
)
    requires
        b.color.a == 255,
        b.matte_color.a == 255,
    ensures
        ({
            let w = img.width as int;
            let h = img.height as int;
            let left = if x < 0 {
                -x
            } else {
                x - (w - 1)
            };
            let above = if y < 0 {
                -y
            } else {
                y - (h - 1)
            };
            // How far (x, y), counted from the picture's corner, lies outside it.
            let away = if left > above {
                left
            } else {
                above
            };
            let shown = bordered_at(img, b, m, ground, x + m.pad_left(), y + m.pad_top());
            &&& w > 0 && h > 0 && 0 < away <= m.matte ==> shown == b.matte_color
            &&& w > 0 && h > 0 && m.matte < away <= m.matte + m.border && away > 0 ==> shown
                == b.color
            &&& w > 0 && h > 0 && away > m.matte + m.border && away > 0 ==> shown == ground
            &&& img.inside(x, y) && img.at(x, y).a == 0 ==> shown == (if m.matte > 0 {
                b.matte_color
            } else if m.border > 0 {
                b.color
            } else {
                ground
            })
        }),
{
    crate::image::law_blend_extremes(ground, b.color);
    crate::image::law_blend_extremes(ground, b.matte_color);
    crate::image::law_blend_extremes(b.color, b.matte_color);
    if img.inside(x, y) {
        let c = img.at(x, y);
        assert(img.at(x + m.pad_left() - m.pad_left(), y + m.pad_top() - m.pad_top()) == c);
        crate::image::law_blend_extremes(ground, c);
        crate::image::law_blend_extremes(b.color, c);
        crate::image::law_blend_extremes(b.matte_color, c);
    }
}

/// A shadow to the right or below makes room on that side, one to the left or
/// above on the other; every side has room for the frame, the matte and the
/// blur.
pub proof fn law_border_makes_room_for_the_shadow(m: BorderMetrics)
    ensures
        m.pad_right() - m.pad_left() == m.shadow_dx,
        m.pad_bottom() - m.pad_top() == m.shadow_dy,
        m.pad_left() >= m.border + m.matte + m.shadow_radius,
        m.pad_top() >= m.border + m.matte + m.shadow_radius,
        m.pad_right() >= m.border + m.matte + m.shadow_radius,
        m.pad_bottom() >= m.border + m.matte + m.shadow_radius,
        m.shadow_dx >= 0 ==> m.pad_left() == m.border + m.matte + m.shadow_radius,
        m.shadow_dy >= 0 ==> m.pad_top() == m.border + m.matte + m.shadow_radius,
{
}

/// The shadow has the shape of the framed picture, moved by its offset, in the
/// shadow's colour; it keeps its blur radius away from every side. There is one
/// where there is a radius, or an offset with a colour that can be seen.
pub proof fn law_shadow_lies_under_the_frame(
    b: Border,
    m: BorderMetrics,
    w: int,
    h: int,
    x: int,
    y: int,
)
    requires
        w >= 0,
        h >= 0,
    ensures
        ({
            let shown = shadow_at(b, m, w, h, x + m.pad_left(), y + m.pad_top());
            let frame = m.border + m.matte;
            let covered = -frame <= x - m.shadow_dx < w + frame && -frame <= y - m.shadow_dy < h
                + frame;
            let seen = m.shadow_radius > 0 || ((m.shadow_dx != 0 || m.shadow_dy != 0)
                && b.shadow_color.a != 0);
            &&& seen && covered ==> shown == b.shadow_color
            &&& !seen || !covered ==> shown == (Rgba { r: 0, g: 0, b: 0, a: 0 })
            &&& covered ==> m.shadow_radius <= x + m.pad_left() < m.new_width(w) - m.shadow_radius
            &&& covered ==> m.shadow_radius <= y + m.pad_top() < m.new_height(h) - m.shadow_radius
        }),
{
}

/// What four pixels in a row, from (x, y) on, hold together in one channel.
pub open spec fn row_of_four(hi: &RgbaImage, x: int, y: int, k: int) -> int {
    channel(hi.at(x, y), k) + channel(hi.at(x + 1, y), k) + channel(hi.at(x + 2, y), k) + channel(
        hi.at(x + 3, y),
        k,
    )
}

/// What a square of four by four pixels, from (x, y) on, holds together in one
/// channel.
pub open spec fn square_of_four(hi: &RgbaImage, x: int, y: int, k: int) -> int {
    row_of_four(hi, x, y, k) + row_of_four(hi, x, y + 1, k) + row_of_four(hi, x, y + 2, k)
        + row_of_four(hi, x, y + 3, k)
}

proof fn lemma_block_sum(hi: &RgbaImage, bx: int, by: int, k: int)
    ensures
        block_sum(hi, bx, by, k, 16) == square_of_four(hi, 4 * bx, 4 * by, k),
        0 <= block_sum(hi, bx, by, k, 16) <= 16 * 255,
{
    reveal_with_fuel(block_sum, 17);
}

/// Each channel of a scaled-down pixel is the mean, rounded down, of that
/// channel over the sixteen pixels of its square; so a square of one colour
/// keeps it.
pub proof fn law_scaled_down_pixels_are_means(hi: &RgbaImage, bx: int, by: int)
    ensures
        ({
            let c = block_mean(hi, bx, by);
            &&& 16 * c.r <= square_of_four(hi, 4 * bx, 4 * by, 0) < 16 * c.r + 16
            &&& 16 * c.g <= square_of_four(hi, 4 * bx, 4 * by, 1) < 16 * c.g + 16
            &&& 16 * c.b <= square_of_four(hi, 4 * bx, 4 * by, 2) < 16 * c.b + 16
            &&& 16 * c.a <= square_of_four(hi, 4 * bx, 4 * by, 3) < 16 * c.a + 16
        }),
        forall|c: Rgba|
            (forall|i: int, j: int|
                0 <= i < 4 && 0 <= j < 4 ==> #[trigger] hi.at(4 * bx + i, 4 * by + j) == c)
                ==> #[trigger] is_same(block_mean(hi, bx, by), c),
        channel(block_mean(hi, bx, by), 0) == block_mean(hi, bx, by).r,
        channel(block_mean(hi, bx, by), 1) == block_mean(hi, bx, by).g,
        channel(block_mean(hi, bx, by), 2) == block_mean(hi, bx, by).b,
        channel(block_mean(hi, bx, by), 3) == block_mean(hi, bx, by).a,
{
    lemma_block_sum(hi, bx, by, 0);
    lemma_block_sum(hi, bx, by, 1);
    lemma_block_sum(hi, bx, by, 2);
    lemma_block_sum(hi, bx, by, 3);
    assert forall|c: Rgba|
        (forall|i: int, j: int|
            0 <= i < 4 && 0 <= j < 4 ==> #[trigger] hi.at(4 * bx + i, 4 * by + j) == c) implies
        #[trigger] is_same(block_mean(hi, bx, by), c) by {
        lemma_square_of_one_colour(hi, 4 * bx, 4 * by, c, 0);
        lemma_square_of_one_colour(hi, 4 * bx, 4 * by, c, 1);
        lemma_square_of_one_colour(hi, 4 * bx, 4 * by, c, 2);
        lemma_square_of_one_colour(hi, 4 * bx, 4 * by, c, 3);
    }
}

/// Whether two colours are the same.
pub open spec fn is_same(a: Rgba, b: Rgba) -> bool {
    a == b
}

proof fn lemma_square_of_one_colour(hi: &RgbaImage, x: int, y: int, c: Rgba, k: int)
    requires
        forall|i: int, j: int| 0 <= i < 4 && 0 <= j < 4 ==> #[trigger] hi.at(x + i, y + j) == c,
    ensures
        square_of_four(hi, x, y, k) == 16 * channel(c, k),
{
    assert forall|j: int| 0 <= j < 4 implies #[trigger] row_of_four(hi, x, y + j, k) == 4
        * channel(c, k) by {
        assert(hi.at(x + 0, y + j) == c);
        assert(hi.at(x + 1, y + j) == c);
        assert(hi.at(x + 2, y + j) == c);
        assert(hi.at(x + 3, y + j) == c);
    }
    assert(row_of_four(hi, x, y + 0, k) == 4 * channel(c, k));
    assert(row_of_four(hi, x, y + 1, k) == 4 * channel(c, k));
    assert(row_of_four(hi, x, y + 2, k) == 4 * channel(c, k));
    assert(row_of_four(hi, x, y + 3, k) == 4 * channel(c, k));
}

/// The four edges are told apart by numbers from one to four, in the order top,
/// bottom, left, right.
pub proof fn law_salts_differ(a: Edge, b: Edge)
    ensures
        1 <= salt_of(a) <= 4,
        salt_of(a) == salt_of(b) ==> a == b,
        salt_of(Edge::Top) < salt_of(Edge::Bottom) < salt_of(Edge::Left) < salt_of(Edge::Right),
{
}

proof fn lemma_info_lines_add(m: MetadataView, a: Seq<FieldKind>, b: Seq<FieldKind>)
    ensures
        info_lines(m, a + b) == info_lines(m, a) + info_lines(m, b),
    decreases b.len(),
{
    if b.len() == 0 {
        assert(a + b =~= a);
        assert(info_lines(m, a) + info_lines(m, b) =~= info_lines(m, a));
    } else {
        assert((a + b).drop_last() =~= a + b.drop_last());
        lemma_info_lines_add(m, a, b.drop_last());
        assert(info_lines(m, a + b) =~= info_lines(m, a) + info_lines(m, b));
    }
}

/// A banner shows the lines of its fields in the order of the fields. A field
/// gives one line, its label, a colon, a space and its value; it gives none
/// exactly where the value is missing: a title or a process that is not known,
/// or no monitors.
pub proof fn law_banner_lines_follow_the_fields(
    m: MetadataView,
    before: Seq<FieldKind>,
    f: FieldKind,
    after: Seq<FieldKind>,
)
    ensures
        info_lines(m, before + seq![f] + after) == info_lines(m, before) + info_lines(m, seq![f])
            + info_lines(m, after),
        info_lines(m, Seq::empty()).len() == 0,
        info_lines(m, seq![f]).len() == (if (f is WindowTitle && m.foreground_title is None) || (
        f is ProcessName && m.foreground_process is None) || (f is MonitorInfo && m.monitors.len()
            == 0) {
            0int
        } else {
            1
        }),
        info_lines(m, seq![f]).len() == 1 ==> ({
            let line = info_lines(m, seq![f])[0];
            let value = line.skip((f.text().len() + 2) as int);
            &&& line.take(f.text().len() as int) == f.text()
            &&& line[f.text().len() as int] == ':'
            &&& line[f.text().len() as int + 1] == ' '
            &&& f is Timestamp ==> value == crate::clock::date_time_text(m.captured_at)
            &&& f is WindowTitle ==> Some(value) == m.foreground_title
            &&& f is ProcessName ==> Some(value) == m.foreground_process
            &&& f is OsVersion ==> value == m.os_version
            &&& f is MonitorInfo ==> value == monitors_text(m.monitors)
        }),
{
    reveal_strlit(": ");
    lemma_info_lines_add(m, before + seq![f], after);
    lemma_info_lines_add(m, before, seq![f]);
    assert(seq![f].drop_last() =~= Seq::<FieldKind>::empty());
    assert(info_lines(m, seq![f].drop_last()) =~= Seq::<Seq<char>>::empty());
    if info_lines(m, seq![f]).len() == 1 {
        let line = info_lines(m, seq![f])[0];
        let v = field_value(m, f)->Some_0;
        assert(line == f.text() + ": "@ + v);
        assert(line.skip((f.text().len() + 2) as int) =~= v);
        assert(line.take(f.text().len() as int) =~= f.text());
    }
}

proof fn lemma_monitors_text_add(a: Seq<MonitorInfo>, b: Seq<MonitorInfo>)
    requires
        a.len() > 0,
        b.len() > 0,
    ensures
        monitors_text(a + b) == monitors_text(a) + " "@ + monitors_text(b),
    decreases b.len(),
{
    assert((a + b).drop_last() =~= a + b.drop_last());
    if b.len() == 1 {
        assert(a + b.drop_last() =~= a);
    } else {
        lemma_monitors_text_add(a, b.drop_last());
    }
    assert(monitors_text(a + b) =~= monitors_text(a) + " "@ + monitors_text(b));
}

/// Monitors are listed in order with one space between two of them. Each is
/// given by its width, an x and its height; the primary one has a star behind
/// it, which is all that tells it from another of the same size.
pub proof fn law_monitors_are_listed_in_order(
    a: Seq<MonitorInfo>,
    b: Seq<MonitorInfo>,
    m: MonitorInfo,
)
    ensures
        a.len() > 0 && b.len() > 0 ==> monitors_text(a + b) == monitors_text(a) + seq![' ']
            + monitors_text(b),
        monitors_text(Seq::empty()).len() == 0,
        ({
            let w = crate::text::decimal(m.rect.width as nat);
            let h = crate::text::decimal(m.rect.height as nat);
            let t = monitors_text(seq![m]);
            &&& t.len() == w.len() + 1 + h.len() + (if m.is_primary {
                1int
            } else {
                0
            })
            &&& t.take(w.len() as int) == w
            &&& t[w.len() as int] == 'x'
            &&& t.subrange(w.len() as int + 1, w.len() as int + 1 + h.len()) == h
            &&& m.is_primary ==> t.last() == '*'
        }),
{
    reveal_strlit(" ");
    reveal_strlit("x");
    reveal_strlit("*");
    assert(" "@ =~= seq![' ']);
    if a.len() > 0 && b.len() > 0 {
        lemma_monitors_text_add(a, b);
    }
    let w = crate::text::decimal(m.rect.width as nat);
    let h = crate::text::decimal(m.rect.height as nat);
    let t = monitors_text(seq![m]);
    assert(t == monitor_text(m));
    assert(t.take(w.len() as int) =~= w);
    assert(t.subrange(w.len() as int + 1, w.len() as int + 1 + h.len()) =~= h);
}

} // verus!
