//! Pixel images and the integer operations on them.
use vstd::prelude::*;
use crate::px::Rgba;

verus! {

/// An image of RGBA pixels: four bytes per pixel, row by row from the top left.
#[derive(Debug)]
pub struct RgbaImage {
    pub width: u32,
    pub height: u32,
    pub raw: Vec<u8>,
}

/// The number of the pixel at (x, y) in an image of this width.
pub open spec fn pixel_index(width: int, x: int, y: int) -> int {
    y * width + x
}

impl RgbaImage {
    /// The byte list holds four bytes per pixel.
    pub open spec fn wf(&self) -> bool {
        self.raw@.len() == 4 * (self.width * self.height)
    }

    /// Whether (x, y) is a pixel of the image.
    pub open spec fn inside(&self, x: int, y: int) -> bool {
        0 <= x < self.width && 0 <= y < self.height
    }

    /// The pixel at (x, y).
    pub open spec fn at(&self, x: int, y: int) -> Rgba {
        let o = 4 * pixel_index(self.width as int, x, y);
        Rgba { r: self.raw@[o], g: self.raw@[o + 1], b: self.raw@[o + 2], a: self.raw@[o + 3] }
    }

    /// Whether two images have the same size.
    pub open spec fn same_size(&self, other: &RgbaImage) -> bool {
        self.width == other.width && self.height == other.height
    }
}

/// The number of a pixel lies within the image.
pub proof fn lemma_pixel_index(width: int, height: int, x: int, y: int)
    requires
        0 <= x < width,
        0 <= y < height,
    ensures
        0 <= pixel_index(width, x, y) < width * height,
        y * width >= 0,
        y * width <= width * height,
{
    assert(0 <= y * width + x < width * height && 0 <= y * width <= width * height)
        by (nonlinear_arith)
        requires
            0 <= x < width,
            0 <= y < height,
    ;
}

/// Different pixels have different numbers.
pub proof fn lemma_pixel_distinct(width: int, x1: int, y1: int, x2: int, y2: int)
    requires
        0 <= x1 < width,
        0 <= x2 < width,
        x1 != x2 || y1 != y2,
    ensures
        pixel_index(width, x1, y1) != pixel_index(width, x2, y2),
{
    if y1 < y2 {
        assert(y1 * width + x1 < y2 * width + x2) by (nonlinear_arith)
            requires
                0 <= x1 < width,
                0 <= x2 < width,
                y1 < y2,
        ;
    } else if y2 < y1 {
        assert(y2 * width + x2 < y1 * width + x1) by (nonlinear_arith)
            requires
                0 <= x1 < width,
                0 <= x2 < width,
                y2 < y1,
        ;
    }
}

impl Clone for RgbaImage {
    fn clone(&self) -> (r: Self)
        ensures
            r.width == self.width,
            r.height == self.height,
            r.raw@ == self.raw@,
    {
        let mut raw: Vec<u8> = Vec::new();
        let mut i: usize = 0;
        while i < self.raw.len()
            invariant
                i <= self.raw@.len(),
                raw@ == self.raw@.take(i as int),
            decreases self.raw@.len() - i,
        {
            raw.push(self.raw[i]);
            i += 1;
            assert(self.raw@.take(i as int) =~= self.raw@.take(i - 1).push(self.raw@[i - 1]));
        }
        assert(self.raw@.take(i as int) =~= self.raw@);
        RgbaImage { width: self.width, height: self.height, raw }
    }
}

impl RgbaImage {
    /// An image of one colour.
    pub fn from_pixel(width: u32, height: u32, color: Rgba) -> (r: Self)
        requires
            4 * (width * height) <= usize::MAX,
        ensures
            r.wf(),
            r.width == width,
            r.height == height,
            forall|x: int, y: int| r.inside(x, y) ==> #[trigger] r.at(x, y) == color,
    {
        let mut raw: Vec<u8> = Vec::new();
        proof {
            assert(0 <= width * height) by (nonlinear_arith)
                requires
                    width >= 0,
                    height >= 0,
            ;
        }
        let n: u64 = width as u64 * height as u64;
        let mut i: u64 = 0;
        while i < n
            invariant
                i <= n,
                n == width * height,
                4 * n <= usize::MAX,
                raw@.len() == 4 * i,
                forall|k: int|
                    #![trigger raw@[4 * k]]
                    0 <= k < i ==> raw@[4 * k] == color.r && raw@[4 * k + 1] == color.g && raw@[4
                        * k + 2] == color.b && raw@[4 * k + 3] == color.a,
            decreases n - i,
        {
            let ghost before = raw@;
            raw.push(color.r);
            raw.push(color.g);
            raw.push(color.b);
            raw.push(color.a);
            i += 1;
            assert forall|k: int| 0 <= k < i implies #[trigger] raw@[4 * k] == color.r && raw@[4 * k
                + 1] == color.g && raw@[4 * k + 2] == color.b && raw@[4 * k + 3] == color.a by {
                if k < i - 1 {
                    assert(raw@[4 * k] == before[4 * k]);
                    assert(raw@[4 * k + 1] == before[4 * k + 1]);
                    assert(raw@[4 * k + 2] == before[4 * k + 2]);
                    assert(raw@[4 * k + 3] == before[4 * k + 3]);
                }
            }
        }
        let out = RgbaImage { width, height, raw };
        proof {
            assert forall|x: int, y: int| out.inside(x, y) implies #[trigger] out.at(x, y)
                == color by {
                lemma_pixel_index(width as int, height as int, x, y);
                assert(out.raw@[4 * pixel_index(width as int, x, y)] == color.r);
            }
        }
        out
    }

    /// The pixel at (x, y).
    pub fn get_pixel(&self, x: u32, y: u32) -> (r: Rgba)
        requires
            self.wf(),
            self.inside(x as int, y as int),
        ensures
            r == self.at(x as int, y as int),
    {
        let len: usize = self.raw.len();
        proof {
            lemma_pixel_index(self.width as int, self.height as int, x as int, y as int);
            assert(self.raw@.len() == len);
        }
        let o: usize = 4 * (y as usize * self.width as usize + x as usize);
        Rgba { r: self.raw[o], g: self.raw[o + 1], b: self.raw[o + 2], a: self.raw[o + 3] }
    }

    /// Replaces the pixel at (x, y).
    pub fn put_pixel(&mut self, x: u32, y: u32, color: Rgba)
        requires
            old(self).wf(),
            old(self).inside(x as int, y as int),
        ensures
            final(self).wf(),
            final(self).width == old(self).width,
            final(self).height == old(self).height,
            forall|i: int, j: int|
                final(self).inside(i, j) ==> #[trigger] final(self).at(i, j) == (if i == x && j
                    == y {
                    color
                } else {
                    old(self).at(i, j)
                }),
    {
        let len: usize = self.raw.len();
        proof {
            lemma_pixel_index(self.width as int, self.height as int, x as int, y as int);
            assert(self.raw@.len() == len);
        }
        let o: usize = 4 * (y as usize * self.width as usize + x as usize);
        self.raw.set(o, color.r);
        self.raw.set(o + 1, color.g);
        self.raw.set(o + 2, color.b);
        self.raw.set(o + 3, color.a);
        proof {
            assert forall|i: int, j: int| self.inside(i, j) implies #[trigger] self.at(i, j) == (if i
                == x && j == y {
                color
            } else {
                old(self).at(i, j)
            }) by {
                lemma_pixel_index(self.width as int, self.height as int, i, j);
                if i != x || j != y {
                    lemma_pixel_distinct(self.width as int, i, j, x as int, y as int);
                }
            }
        }
    }
}

// ---------------------------------------------------------------------------
// Blending
// ---------------------------------------------------------------------------

/// One colour channel of `src` over `dst`, with the alpha of `src`.
pub open spec fn over_channel(dst: int, src: int, alpha: int) -> int {
    (src * alpha + dst * (255 - alpha)) / 255
}

/// The alpha of `src` over `dst`.
pub open spec fn over_alpha(dst: int, src: int) -> int {
    src + (dst * (255 - src)) / 255
}

/// Straight (non-premultiplied) over-compositing of two colours.
pub open spec fn over(dst: Rgba, src: Rgba) -> Rgba {
    let alpha = src.a as int;
    Rgba {
        r: over_channel(dst.r as int, src.r as int, alpha) as u8,
        g: over_channel(dst.g as int, src.g as int, alpha) as u8,
        b: over_channel(dst.b as int, src.b as int, alpha) as u8,
        a: over_alpha(dst.a as int, alpha) as u8,
    }
}

proof fn lemma_over_range(dst: u8, src: u8, alpha: u8)
    ensures
        0 <= over_channel(dst as int, src as int, alpha as int) <= 255,
        0 <= over_alpha(dst as int, alpha as int) <= 255,
        0 <= src * alpha <= 65025,
        0 <= dst * (255 - alpha) <= 65025,
        src * alpha + dst * (255 - alpha) <= 65025,
{
    assert(0 <= src * alpha <= 65025 && 0 <= dst * (255 - alpha) <= 65025 && src * alpha + dst * (
    255 - alpha) <= 255 * alpha + 255 * (255 - alpha)) by (nonlinear_arith)
        requires
            0 <= dst <= 255,
            0 <= src <= 255,
            0 <= alpha <= 255,
    ;
    assert(dst * (255 - alpha) <= 255 * (255 - alpha)) by (nonlinear_arith)
        requires
            0 <= dst <= 255,
            0 <= alpha <= 255,
    ;
}

/// `src` over `dst`.
pub fn blend(dst: Rgba, src: Rgba) -> (c: Rgba)
    ensures
        c == over(dst, src),
{
    let sa: u32 = src.a as u32;
    let inv: u32 = 255 - sa;
    proof {
        lemma_over_range(dst.r, src.r, src.a);
        lemma_over_range(dst.g, src.g, src.a);
        lemma_over_range(dst.b, src.b, src.a);
        lemma_over_range(dst.a, src.a, src.a);
    }
    let r: u32 = (src.r as u32 * sa + dst.r as u32 * inv) / 255;
    let g: u32 = (src.g as u32 * sa + dst.g as u32 * inv) / 255;
    let b: u32 = (src.b as u32 * sa + dst.b as u32 * inv) / 255;
    let a: u32 = sa + (dst.a as u32 * inv) / 255;
    Rgba { r: r as u8, g: g as u8, b: b as u8, a: a as u8 }
}

/// An opaque colour covers what is below it; a fully transparent one changes
/// nothing.
pub proof fn law_blend_extremes(dst: Rgba, src: Rgba)
    ensures
        src.a == 255 ==> over(dst, src) == src,
        src.a == 0 ==> over(dst, src) == dst,
{
}

/// Blending never makes a pixel more transparent than either colour.
pub proof fn law_blend_alpha_grows(dst: Rgba, src: Rgba)
    ensures
        over(dst, src).a >= src.a,
        over(dst, src).a + 1 >= dst.a,
        dst.a == 255 ==> over(dst, src).a == 255,
{
    lemma_over_range(dst.a, src.a, src.a);
    assert(dst.a * (255 - src.a) == 255 * dst.a - dst.a * src.a) by (nonlinear_arith);
    assert(dst.a * src.a <= 255 * src.a) by (nonlinear_arith)
        requires
            0 <= dst.a <= 255,
            0 <= src.a <= 255,
    ;
}

/// Blends a colour into a pixel; a position outside the image is ignored.
pub fn blend_pixel(canvas: &mut RgbaImage, x: u32, y: u32, color: Rgba)
    requires
        old(canvas).wf(),
    ensures
        final(canvas).wf(),
        final(canvas).same_size(old(canvas)),
        forall|i: int, j: int|
            final(canvas).inside(i, j) ==> #[trigger] final(canvas).at(i, j) == (if i == x && j
                == y {
                over(old(canvas).at(i, j), color)
            } else {
                old(canvas).at(i, j)
            }),
{
    if x >= canvas.width || y >= canvas.height {
        return;
    }
    let dst = canvas.get_pixel(x, y);
    canvas.put_pixel(x, y, blend(dst, color));
}

// ---------------------------------------------------------------------------
// Areas
// ---------------------------------------------------------------------------

/// `src` drawn over `dst` with its top-left corner at (ox, oy), at one pixel.
pub open spec fn drawn_over(
    dst: &RgbaImage,
    src: &RgbaImage,
    ox: int,
    oy: int,
    x: int,
    y: int,
) -> Rgba {
    if src.inside(x - ox, y - oy) {
        over(dst.at(x, y), src.at(x - ox, y - oy))
    } else {
        dst.at(x, y)
    }
}

/// Draws `src` over `dst` with its top-left corner at (ox, oy); what falls
/// outside is cut off.
pub fn draw_over(dst: &mut RgbaImage, src: &RgbaImage, ox: i64, oy: i64)
    requires
        old(dst).wf(),
        src.wf(),
        -0x1_0000_0000 <= ox <= 0x1_0000_0000,
        -0x1_0000_0000 <= oy <= 0x1_0000_0000,
    ensures
        final(dst).wf(),
        final(dst).same_size(old(dst)),
        forall|x: int, y: int|
            final(dst).inside(x, y) ==> #[trigger] final(dst).at(x, y) == drawn_over(
                old(dst),
                src,
                ox as int,
                oy as int,
                x,
                y,
            ),
{
    let mut cy: u32 = 0;
    while cy < src.height
        invariant
            cy <= src.height,
            dst.wf(),
            dst.same_size(old(dst)),
            src.wf(),
            -0x1_0000_0000 <= ox <= 0x1_0000_0000,
            -0x1_0000_0000 <= oy <= 0x1_0000_0000,
            forall|x: int, y: int|
                dst.inside(x, y) ==> #[trigger] dst.at(x, y) == (if y - oy < cy {
                    drawn_over(old(dst), src, ox as int, oy as int, x, y)
                } else {
                    old(dst).at(x, y)
                }),
        decreases src.height - cy,
    {
        let dy: i64 = oy + cy as i64;
        if 0 <= dy && dy < dst.height as i64 {
            let mut cx: u32 = 0;
            while cx < src.width
                invariant
                    cx <= src.width,
                    cy < src.height,
                    dy == oy + cy,
                    0 <= dy < dst.height,
                    dst.wf(),
                    dst.same_size(old(dst)),
                    src.wf(),
                    -0x1_0000_0000 <= ox <= 0x1_0000_0000,
                    forall|x: int, y: int|
                        dst.inside(x, y) ==> #[trigger] dst.at(x, y) == (if y - oy < cy || (y - oy
                            == cy && x - ox < cx) {
                            drawn_over(old(dst), src, ox as int, oy as int, x, y)
                        } else {
                            old(dst).at(x, y)
                        }),
                decreases src.width - cx,
            {
                let dx: i64 = ox + cx as i64;
                if 0 <= dx && dx < dst.width as i64 {
                    let c = src.get_pixel(cx, cy);
                    blend_pixel(dst, dx as u32, dy as u32, c);
                }
                cx += 1;
            }
        }
        cy += 1;
    }
}

/// Whether (x, y) lies in the half-open rectangle.
pub open spec fn in_area(x: int, y: int, x0: int, y0: int, x1: int, y1: int) -> bool {
    x0 <= x < x1 && y0 <= y < y1
}

/// Blends one colour into every pixel of a rectangle; what falls outside the
/// image is cut off.
pub fn blend_area(canvas: &mut RgbaImage, x0: u32, y0: u32, x1: u32, y1: u32, color: Rgba)
    requires
        old(canvas).wf(),
    ensures
        final(canvas).wf(),
        final(canvas).same_size(old(canvas)),
        forall|x: int, y: int|
            final(canvas).inside(x, y) ==> #[trigger] final(canvas).at(x, y) == (if in_area(
                x,
                y,
                x0 as int,
                y0 as int,
                x1 as int,
                y1 as int,
            ) {
                over(old(canvas).at(x, y), color)
            } else {
                old(canvas).at(x, y)
            }),
{
    let right: u32 = if x1 < canvas.width {
        x1
    } else {
        canvas.width
    };
    let bottom: u32 = if y1 < canvas.height {
        y1
    } else {
        canvas.height
    };
    let mut cy: u32 = y0;
    while cy < bottom
        invariant
            y0 <= cy,
            cy <= bottom || cy == y0,
            bottom <= canvas.height,
            bottom <= y1,
            bottom == y1 || bottom == canvas.height,
            right <= canvas.width,
            right <= x1,
            right == x1 || right == canvas.width,
            canvas.wf(),
            canvas.same_size(old(canvas)),
            forall|x: int, y: int|
                canvas.inside(x, y) ==> #[trigger] canvas.at(x, y) == (if in_area(
                    x,
                    y,
                    x0 as int,
                    y0 as int,
                    x1 as int,
                    cy as int,
                ) {
                    over(old(canvas).at(x, y), color)
                } else {
                    old(canvas).at(x, y)
                }),
        decreases bottom - cy,
    {
        let mut cx: u32 = x0;
        while cx < right
            invariant
                x0 <= cx,
                cx <= right || cx == x0,
                y0 <= cy < bottom,
                bottom <= canvas.height,
                right <= canvas.width,
                right <= x1,
                right == x1 || right == canvas.width,
                canvas.wf(),
                canvas.same_size(old(canvas)),
                forall|x: int, y: int|
                    canvas.inside(x, y) ==> #[trigger] canvas.at(x, y) == (if in_area(
                        x,
                        y,
                        x0 as int,
                        y0 as int,
                        x1 as int,
                        cy as int,
                    ) || (y == cy && x0 <= x < cx) {
                        over(old(canvas).at(x, y), color)
                    } else {
                        old(canvas).at(x, y)
                    }),
            decreases right - cx,
        {
            blend_pixel(canvas, cx, cy, color);
            cx += 1;
        }
        cy += 1;
    }
}

/// Sets every pixel of a rectangle; what falls outside the image is cut off.
pub fn fill_area(canvas: &mut RgbaImage, x0: u32, y0: u32, x1: u32, y1: u32, color: Rgba)
    requires
        old(canvas).wf(),
    ensures
        final(canvas).wf(),
        final(canvas).same_size(old(canvas)),
        forall|x: int, y: int|
            final(canvas).inside(x, y) ==> #[trigger] final(canvas).at(x, y) == (if in_area(
                x,
                y,
                x0 as int,
                y0 as int,
                x1 as int,
                y1 as int,
            ) {
                color
            } else {
                old(canvas).at(x, y)
            }),
{
    let right: u32 = if x1 < canvas.width {
        x1
    } else {
        canvas.width
    };
    let bottom: u32 = if y1 < canvas.height {
        y1
    } else {
        canvas.height
    };
    let mut cy: u32 = y0;
    while cy < bottom
        invariant
            y0 <= cy,
            cy <= bottom || cy == y0,
            bottom <= canvas.height,
            bottom <= y1,
            bottom == y1 || bottom == canvas.height,
            right <= canvas.width,
            right <= x1,
            right == x1 || right == canvas.width,
            canvas.wf(),
            canvas.same_size(old(canvas)),
            forall|x: int, y: int|
                canvas.inside(x, y) ==> #[trigger] canvas.at(x, y) == (if in_area(
                    x,
                    y,
                    x0 as int,
                    y0 as int,
                    x1 as int,
                    cy as int,
                ) {
                    color
                } else {
                    old(canvas).at(x, y)
                }),
        decreases bottom - cy,
    {
        let mut cx: u32 = x0;
        while cx < right
            invariant
                x0 <= cx,
                cx <= right || cx == x0,
                y0 <= cy < bottom,
                bottom <= canvas.height,
                right <= canvas.width,
                right <= x1,
                right == x1 || right == canvas.width,
                canvas.wf(),
                canvas.same_size(old(canvas)),
                forall|x: int, y: int|
                    canvas.inside(x, y) ==> #[trigger] canvas.at(x, y) == (if in_area(
                        x,
                        y,
                        x0 as int,
                        y0 as int,
                        x1 as int,
                        cy as int,
                    ) || (y == cy && x0 <= x < cx) {
                        color
                    } else {
                        old(canvas).at(x, y)
                    }),
            decreases right - cx,
        {
            canvas.put_pixel(cx, cy, color);
            cx += 1;
        }
        cy += 1;
    }
}

/// Each channel of one colour over another is the mean of the two, weighted by
/// the alpha of the upper one and rounded down; so it lies between them. What
/// the lower one adds to the alpha is its share of what the upper one leaves
/// free.
pub proof fn law_blend_is_a_weighted_mean(dst: Rgba, src: Rgba)
    ensures
        ({
            let c = over(dst, src);
            &&& 255 * c.r <= src.r * src.a + dst.r * (255 - src.a) < 255 * c.r + 255
            &&& 255 * c.g <= src.g * src.a + dst.g * (255 - src.a) < 255 * c.g + 255
            &&& 255 * c.b <= src.b * src.a + dst.b * (255 - src.a) < 255 * c.b + 255
            &&& 255 * (c.a - src.a) <= dst.a * (255 - src.a) < 255 * (c.a - src.a) + 255
        }),
{
    lemma_over_range(dst.r, src.r, src.a);
    lemma_over_range(dst.g, src.g, src.a);
    lemma_over_range(dst.b, src.b, src.a);
    lemma_over_range(dst.a, src.a, src.a);
}

/// A picture drawn over another appears moved by the offset: its pixel (i, j)
/// lies on (i + ox, j + oy), and what its own area does not reach stays.
pub proof fn law_drawn_where_put(
    dst: &RgbaImage,
    src: &RgbaImage,
    ox: int,
    oy: int,
    i: int,
    j: int,
)
    ensures
        src.inside(i, j) && src.at(i, j).a == 255 ==> drawn_over(dst, src, ox, oy, i + ox, j + oy)
            == src.at(i, j),
        src.inside(i, j) && src.at(i, j).a == 0 ==> drawn_over(dst, src, ox, oy, i + ox, j + oy)
            == dst.at(i + ox, j + oy),
        src.inside(i, j) ==> drawn_over(dst, src, ox, oy, i + ox, j + oy) == over(
            dst.at(i + ox, j + oy),
            src.at(i, j),
        ),
        i < 0 || i >= src.width || j < 0 || j >= src.height ==> drawn_over(
            dst,
            src,
            ox,
            oy,
            i + ox,
            j + oy,
        ) == dst.at(i + ox, j + oy),
{
}

/// An area that is one pixel wide and high holds that pixel alone, and two
/// areas side by side hold together, each pixel once, what the area over both
/// holds.
pub proof fn law_areas_add_up(x: int, y: int, x0: int, y0: int, x1: int, y1: int, cut: int)
    ensures
        in_area(x, y, x0, y0, x0 + 1, y0 + 1) <==> x == x0 && y == y0,
        x0 <= cut <= x1 ==> (in_area(x, y, x0, y0, x1, y1) <==> in_area(x, y, x0, y0, cut, y1)
            || in_area(x, y, cut, y0, x1, y1)),
        !(in_area(x, y, x0, y0, cut, y1) && in_area(x, y, cut, y0, x1, y1)),
        y0 <= cut <= y1 ==> (in_area(x, y, x0, y0, x1, y1) <==> in_area(x, y, x0, y0, x1, cut)
            || in_area(x, y, x0, cut, x1, y1)),
        !(in_area(x, y, x0, y0, x1, cut) && in_area(x, y, x0, cut, x1, y1)),
        x0 >= x1 || y0 >= y1 ==> !in_area(x, y, x0, y0, x1, y1),
{
}

/// The pixels lie row after row from the top-left corner, four bytes each: red,
/// green, blue, alpha.
pub proof fn law_pixels_lie_row_by_row(img: &RgbaImage, x: int, y: int)
    requires
        img.wf(),
        img.inside(x, y),
    ensures
        img.at(x, y).r == img.raw@[4 * (y * img.width) + 4 * x],
        img.at(x, y).g == img.raw@[4 * (y * img.width) + 4 * x + 1],
        img.at(x, y).b == img.raw@[4 * (y * img.width) + 4 * x + 2],
        img.at(x, y).a == img.raw@[4 * (y * img.width) + 4 * x + 3],
        img.raw@.len() == 4 * (img.width * img.height),
        0 <= x < img.width && 0 <= y < img.height,
{
}

} // verus!
