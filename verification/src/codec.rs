//! Image codecs and resampling, as the outside crates provide them.
use vstd::prelude::*;
use crate::history::Kind;
use crate::image::RgbaImage;
use crate::text::{from_chars, push_text, to_chars};

verus! {

/// The error of the `image` crate.
#[verifier::external_type_specification]
#[verifier::external_body]
pub struct ExImageError(image::ImageError);

/// What decoding the bytes of an image file gives: width, height and RGBA
/// bytes, or nothing if they are not an image that can be read.
pub uninterp spec fn decoded_image(bytes: Seq<u8>) -> Option<(u32, u32, Seq<u8>)>;

/// `image::load_from_memory` and `DynamicImage::to_rgba8`: the result depends
/// on the bytes only, and holds four bytes per pixel.
#[verifier::external_body]
fn load_image(bytes: &Vec<u8>) -> (r: Result<RgbaImage, image::ImageError>)
    ensures
        match r {
            Ok(img) => img.wf() && decoded_image(bytes@) == Some(
                (img.width, img.height, img.raw@),
            ),
            Err(_) => decoded_image(bytes@) is None,
        },
{
    let img = image::load_from_memory(bytes)?.to_rgba8();
    let (width, height) = img.dimensions();
    Ok(RgbaImage { width, height, raw: img.into_raw() })
}

/// What decoding the bytes of a PNG file gives, or those of a GIF file: width,
/// height and RGBA bytes, or nothing if they are not such a file.
pub uninterp spec fn decoded_file(bytes: Seq<u8>, gif: bool) -> Option<(u32, u32, Seq<u8>)>;

/// `image::load_from_memory_with_format` and `DynamicImage::to_rgba8`: the result
/// depends on the bytes and the format only, and holds four bytes per pixel.
#[verifier::external_body]
fn load_file(bytes: &Vec<u8>, kind: Kind) -> (r: Result<RgbaImage, image::ImageError>)
    ensures
        match r {
            Ok(img) => img.wf() && decoded_file(bytes@, kind == Kind::Gif) == Some(
                (img.width, img.height, img.raw@),
            ),
            Err(_) => decoded_file(bytes@, kind == Kind::Gif) is None,
        },
{
    let format = match kind {
        Kind::Png => image::ImageFormat::Png,
        Kind::Gif => image::ImageFormat::Gif,
    };
    let img = image::load_from_memory_with_format(bytes, format)?.to_rgba8();
    let (width, height) = img.dimensions();
    Ok(RgbaImage { width, height, raw: img.into_raw() })
}

/// The PNG file of an image, or nothing if the encoder refuses it.
pub uninterp spec fn encoded_png(width: u32, height: u32, raw: Seq<u8>) -> Option<Seq<u8>>;

/// The most bytes of pixels that the reader allocates for an image: 512 MiB.
pub const MOST_READ: usize = 0x2000_0000;

/// Whether an image has pixels, and no more than can be read back.
pub open spec fn is_ordinary(img: &RgbaImage) -> bool {
    img.width > 0 && img.height > 0 && img.raw@.len() <= MOST_READ
}

/// Whether the bytes of a file are read as this image.
pub open spec fn reads_as(bytes: Seq<u8>, img: &RgbaImage) -> bool {
    decoded_image(bytes) == Some((img.width, img.height, img.raw@))
}

/// `PngEncoder::write_image` with eight-bit RGBA: the result depends on the
/// size and the pixels only. The encoder panics on a buffer of another length, and
/// refuses an image without pixels. An image of ordinary size is written, without loss:
/// `image::load_from_memory` reads it back from the file. From the file of a larger one
/// it reads nothing: the memory for the pixels is past its default limit.
#[verifier::external_body]
fn write_png(img: &RgbaImage) -> (r: Result<Vec<u8>, image::ImageError>)
    requires
        img.wf(),
    ensures
        match r {
            Ok(bytes) => encoded_png(img.width, img.height, img.raw@) == Some(bytes@),
            Err(_) => encoded_png(img.width, img.height, img.raw@) is None,
        },
        img.width == 0 || img.height == 0 ==> r is Err,
        is_ordinary(img) ==> r is Ok && reads_as(r->Ok_0@, img),
        img.raw@.len() > MOST_READ ==> (r matches Ok(bytes) ==> decoded_image(bytes@) is None),
{
    let mut out: Vec<u8> = Vec::new();
    let encoder = image::codecs::png::PngEncoder::new(&mut out);
    let color = image::ExtendedColorType::Rgba8;
    image::ImageEncoder::write_image(encoder, &img.raw, img.width, img.height, color)?;
    Ok(out)
}

/// Decodes an image file; `None` if the bytes cannot be read as one.
pub fn decode_image(bytes: &Vec<u8>) -> (r: Option<RgbaImage>)
    ensures
        match r {
            Some(img) => img.wf() && decoded_image(bytes@) == Some(
                (img.width, img.height, img.raw@),
            ),
            None => decoded_image(bytes@) is None,
        },
{
    match load_image(bytes) {
        Ok(img) => Some(img),
        Err(_) => None,
    }
}

/// Decodes a PNG or a GIF file; `None` if the bytes cannot be read as one.
pub fn decode_file(bytes: &Vec<u8>, kind: Kind) -> (r: Option<RgbaImage>)
    ensures
        match r {
            Some(img) => img.wf() && decoded_file(bytes@, kind == Kind::Gif) == Some(
                (img.width, img.height, img.raw@),
            ),
            None => decoded_file(bytes@, kind == Kind::Gif) is None,
        },
{
    match load_file(bytes, kind) {
        Ok(img) => Some(img),
        Err(_) => None,
    }
}

/// Encodes an image as PNG; `None` if the encoder refuses it.
pub fn encode_png(img: &RgbaImage) -> (r: Option<Vec<u8>>)
    requires
        img.wf(),
    ensures
        match r {
            Some(bytes) => encoded_png(img.width, img.height, img.raw@) == Some(bytes@),
            None => encoded_png(img.width, img.height, img.raw@) is None,
        },
        img.width == 0 || img.height == 0 ==> r is None,
        is_ordinary(img) ==> r is Some && reads_as(r->Some_0@, img),
        img.raw@.len() > MOST_READ ==> (r matches Some(bytes) ==> decoded_image(bytes@) is None),
{
    match write_png(img) {
        Ok(bytes) => Some(bytes),
        Err(_) => None,
    }
}

/// `image::imageops::rotate90`: a quarter turn clockwise.
#[verifier::external_body]
pub(crate) fn rotate90(img: &RgbaImage) -> (r: RgbaImage)
    requires
        img.wf(),
    ensures
        r.wf(),
        r.width == img.height,
        r.height == img.width,
        forall|x: int, y: int|
            img.inside(x, y) ==> #[trigger] img.at(x, y) == r.at(img.height - 1 - y, x),
{
    let src = image::RgbaImage::from_raw(img.width, img.height, img.raw.to_vec()).unwrap();
    let out = image::imageops::rotate90(&src);
    RgbaImage { width: out.width(), height: out.height(), raw: out.into_raw() }
}

/// `image::imageops::rotate270`: a quarter turn counter-clockwise.
#[verifier::external_body]
pub(crate) fn rotate270(img: &RgbaImage) -> (r: RgbaImage)
    requires
        img.wf(),
    ensures
        r.wf(),
        r.width == img.height,
        r.height == img.width,
        forall|x: int, y: int|
            img.inside(x, y) ==> #[trigger] img.at(x, y) == r.at(y, img.width - 1 - x),
{
    let src = image::RgbaImage::from_raw(img.width, img.height, img.raw.to_vec()).unwrap();
    let out = image::imageops::rotate270(&src);
    RgbaImage { width: out.width(), height: out.height(), raw: out.into_raw() }
}

/// `image::imageops::resize` with the Lanczos filter. The size is stated; the
/// resampled colours are not: they come out of the floating-point sine of the
/// machine. Between its two passes the crate holds sixteen bytes for each pixel of
/// the old width and the new height, and it panics where such a buffer is too long.
#[verifier::external_body]
pub(crate) fn resize(img: &RgbaImage, width: u32, height: u32) -> (r: RgbaImage)
    requires
        img.wf(),
        4 * (width * height) <= isize::MAX,
        16 * (img.width * height) <= isize::MAX,
    ensures
        r.wf(),
        r.width == width,
        r.height == height,
{
    let src = image::RgbaImage::from_raw(img.width, img.height, img.raw.to_vec()).unwrap();
    let filter = image::imageops::FilterType::Lanczos3;
    let out = image::imageops::resize(&src, width, height, filter);
    RgbaImage { width: out.width(), height: out.height(), raw: out.into_raw() }
}

/// Scaling an image down into a box: the size and the RGBA bytes.
pub uninterp spec fn thumbnail_of(
    width: u32,
    height: u32,
    raw: Seq<u8>,
    max_width: u32,
    max_height: u32,
) -> (u32, u32, Seq<u8>);

/// The most pixels that a pixel of a thumbnail may be the mean of. The crate adds them
/// up in 32 bits, each up to 255, and half their number for rounding.
pub const MOST_BLOCK: u64 = 16_000_000;

/// A bound on one side of the blocks that make the pixels of a thumbnail, for an image
/// with `n` pixels on that side that is scaled down by less than `scale`: as the shorter
/// side of a thumbnail is rounded to whole pixels, a block is up to one and a half times
/// as long, and single-precision positions move its ends by less than two millionths of
/// the side. No block is longer than the side.
pub open spec fn block_side(n: int, scale: int) -> int {
    let most = 2 * scale + n / 500_000 + 2;
    if n < most {
        n
    } else {
        most
    }
}

/// A bound on the number of pixels that make one pixel of a thumbnail.
pub open spec fn block_size(width: u32, height: u32, max_width: u32, max_height: u32) -> int {
    let across = width as int / max_width as int + 1;
    let down = height as int / max_height as int + 1;
    let scale = if across < down {
        down
    } else {
        across
    };
    block_side(width as int, scale) * block_side(height as int, scale)
}

/// Computes the bound on the number of pixels that make one pixel of a thumbnail.
fn block_count(width: u32, height: u32, max_width: u32, max_height: u32) -> (r: u64)
    requires
        max_width > 0,
        max_height > 0,
    ensures
        r == block_size(width, height, max_width, max_height),
{
    let across: u64 = (width / max_width) as u64 + 1;
    let down: u64 = (height / max_height) as u64 + 1;
    let scale: u64 = if across < down {
        down
    } else {
        across
    };
    let wide: u64 = 2 * scale + (width / 500_000) as u64 + 2;
    let high: u64 = 2 * scale + (height / 500_000) as u64 + 2;
    let w: u64 = if (width as u64) < wide {
        width as u64
    } else {
        wide
    };
    let h: u64 = if (height as u64) < high {
        height as u64
    } else {
        high
    };
    assert(w * h <= 0xffff_ffff * 0xffff_ffff) by (nonlinear_arith)
        requires
            w <= 0xffff_ffff,
            h <= 0xffff_ffff,
    ;
    w * h
}

/// `DynamicImage::thumbnail`: the result depends on the image and the box.
#[verifier::external_body]
pub(crate) fn thumbnail(img: &RgbaImage, max_width: u32, max_height: u32) -> (r: RgbaImage)
    requires
        img.wf(),
        max_width > 0,
        max_height > 0,
        4 * (max_width * max_height) <= 0x7fff_ffff,
        block_size(img.width, img.height, max_width, max_height) <= MOST_BLOCK,
    ensures
        r.wf(),
        (r.width, r.height, r.raw@) == thumbnail_of(
            img.width,
            img.height,
            img.raw@,
            max_width,
            max_height,
        ),
{
    let src = image::RgbaImage::from_raw(img.width, img.height, img.raw.to_vec()).unwrap();
    let out = image::DynamicImage::ImageRgba8(src).thumbnail(max_width, max_height).to_rgba8();
    RgbaImage { width: out.width(), height: out.height(), raw: out.into_raw() }
}

// ---------------------------------------------------------------------------
// Base64
// ---------------------------------------------------------------------------

/// A digit of the standard base64 alphabet.
pub open spec fn base64_digit(n: int) -> char {
    if n < 26 {
        ('A' as int + n) as char
    } else if n < 52 {
        ('a' as int + n - 26) as char
    } else if n < 62 {
        ('0' as int + n - 52) as char
    } else if n == 62 {
        '+'
    } else {
        '/'
    }
}

/// Bytes in standard base64 with padding.
pub open spec fn base64_text(b: Seq<u8>) -> Seq<char>
    decreases b.len(),
{
    if b.len() == 0 {
        Seq::empty()
    } else if b.len() == 1 {
        seq![base64_digit((b[0] / 4) as int), base64_digit((b[0] % 4) * 16), '=', '=']
    } else if b.len() == 2 {
        seq![
            base64_digit((b[0] / 4) as int),
            base64_digit((b[0] % 4) * 16 + b[1] / 16),
            base64_digit((b[1] % 16) * 4),
            '=',
        ]
    } else {
        seq![
            base64_digit((b[0] / 4) as int),
            base64_digit((b[0] % 4) * 16 + b[1] / 16),
            base64_digit((b[1] % 16) * 4 + b[2] / 64),
            base64_digit((b[2] % 64) as int),
        ] + base64_text(b.subrange(3, b.len() as int))
    }
}

/// `base64`'s `STANDARD.encode`: the standard alphabet, padded.
#[verifier::external_body]
pub(crate) fn base64_encode(bytes: &Vec<u8>) -> (r: String)
    requires
        2 * bytes@.len() + 4 <= isize::MAX,
    ensures
        r@ == base64_text(bytes@),
{
    base64::Engine::encode(&base64::engine::general_purpose::STANDARD, bytes)
}

// ---------------------------------------------------------------------------
// Data URIs
// ---------------------------------------------------------------------------

/// A PNG file as a data URI.
pub open spec fn data_uri_of(png: Seq<u8>) -> Seq<char> {
    "data:image/png;base64,"@ + base64_text(png)
}

/// Whether the base64 text of so many bytes fits into memory.
pub open spec fn fits_uri(n: int) -> bool {
    2 * n + 4 <= isize::MAX
}

/// A PNG file as a data URI.
pub fn data_uri(png: &Vec<u8>) -> (r: String)
    requires
        fits_uri(png@.len() as int),
    ensures
        r@ == data_uri_of(png@),
{
    let mut out = to_chars("data:image/png;base64,");
    let body = base64_encode(png);
    push_text(&mut out, body.as_str());
    from_chars(out.as_slice())
}

/// The data URI of an image scaled into a box, if it can be encoded.
pub open spec fn thumb_uri_of(
    width: u32,
    height: u32,
    raw: Seq<u8>,
    max_width: u32,
    max_height: u32,
) -> Option<Seq<char>> {
    let (w, h, pixels) = thumbnail_of(width, height, raw, max_width, max_height);
    match encoded_png(w, h, pixels) {
        Some(png) => if fits_uri(png.len() as int) {
            Some(data_uri_of(png))
        } else {
            None
        },
        None => None,
    }
}

/// The data URI of an image scaled into a box, if it can be encoded.
pub fn thumb_uri(img: &RgbaImage, max_width: u32, max_height: u32) -> (r: Option<String>)
    requires
        img.wf(),
        max_width > 0,
        max_height > 0,
        4 * (max_width * max_height) <= 0x7fff_ffff,
        block_size(img.width, img.height, max_width, max_height) <= MOST_BLOCK,
    ensures
        crate::text::optional_text(r) == thumb_uri_of(
            img.width,
            img.height,
            img.raw@,
            max_width,
            max_height,
        ),
{
    let small = thumbnail(img, max_width, max_height);
    match encode_png(&small) {
        Some(png) => if png.len() <= (isize::MAX as usize - 4) / 2 {
            Some(data_uri(&png))
        } else {
            None
        },
        None => None,
    }
}

/// The data URI of a picture file scaled into a box. There is none for bytes that
/// cannot be read, nor for a picture whose pixels are too many for one of the box.
pub open spec fn file_thumb(bytes: Seq<u8>, gif: bool, max_width: u32, max_height: u32) -> Option<
    Seq<char>,
> {
    match decoded_file(bytes, gif) {
        Some((width, height, raw)) => if block_size(width, height, max_width, max_height)
            <= MOST_BLOCK {
            thumb_uri_of(width, height, raw, max_width, max_height)
        } else {
            None
        },
        None => None,
    }
}

/// The data URI of a picture file scaled into a box.
pub fn thumb_of_file(bytes: &Vec<u8>, kind: Kind, max_width: u32, max_height: u32) -> (r: Option<
    String,
>)
    requires
        0 < max_width <= 4096,
        0 < max_height <= 4096,
    ensures
        crate::text::optional_text(r) == file_thumb(
            bytes@,
            kind == Kind::Gif,
            max_width,
            max_height,
        ),
{
    assert(4 * (max_width * max_height) <= 0x7fff_ffff) by (nonlinear_arith)
        requires
            0 < max_width <= 4096,
            0 < max_height <= 4096,
    ;
    match decode_file(bytes, kind) {
        Some(img) => if block_count(img.width, img.height, max_width, max_height) <= MOST_BLOCK {
            thumb_uri(&img, max_width, max_height)
        } else {
            None
        },
        None => None,
    }
}

proof fn lemma_longer_side(n: int, m: int, box_n: int, box_m: int)
    requires
        0 <= n,
        0 <= m,
        4 * (n * m) <= MOST_READ,
        64 <= box_n <= 4096,
        64 <= box_m <= 4096,
        m / box_m <= n / box_n,
    ensures
        block_side(n, n / box_n + 1) * block_side(m, n / box_n + 1) <= MOST_BLOCK,
{
    let scale = n / box_n + 1;
    let a = block_side(n, scale);
    let b = block_side(m, scale);
    assert(n / box_n <= n / 64) by (nonlinear_arith)
        requires
            0 <= n,
            64 <= box_n,
    ;
    assert(a <= n / 32 + n / 500_000 + 4);
    assert(0 <= a && 0 <= b <= m);
    if m > 1_500_000 {
        assert(n <= 89) by (nonlinear_arith)
            requires
                0 <= n,
                m > 1_500_000,
                4 * (n * m) <= 0x2000_0000,
        ;
        assert(m / box_m >= m / 4096) by (nonlinear_arith)
            requires
                0 <= m,
                64 <= box_m <= 4096,
        ;
    } else {
        assert(a * b <= (n / 32 + n / 500_000 + 4) * m) by (nonlinear_arith)
            requires
                0 <= a <= n / 32 + n / 500_000 + 4,
                0 <= b <= m,
        ;
        assert((n / 32 + n / 500_000 + 4) * m <= n * m / 16 + 4 * m) by (nonlinear_arith)
            requires
                0 <= n,
                0 <= m,
                n / 32 + n / 500_000 <= n / 16,
        ;
    }
}

/// A picture that the reader has the memory for has a thumbnail in every box of at
/// least 64 pixels a side.
pub proof fn law_readable_pictures_have_thumbnails(
    bytes: Seq<u8>,
    gif: bool,
    max_width: u32,
    max_height: u32,
)
    requires
        64 <= max_width <= 4096,
        64 <= max_height <= 4096,
    ensures
        decoded_file(bytes, gif) matches Some((width, height, raw)) ==> {
            4 * (width * height) <= MOST_READ ==> file_thumb(bytes, gif, max_width, max_height)
                == thumb_uri_of(width, height, raw, max_width, max_height)
        },
{
    match decoded_file(bytes, gif) {
        Some((width, height, raw)) => {
            let (w, h) = (width as int, height as int);
            if 4 * (w * h) <= MOST_READ {
                if w / max_width as int + 1 < h / max_height as int + 1 {
                    assert(w * h == h * w) by (nonlinear_arith);
                    lemma_longer_side(h, w, max_height as int, max_width as int);
                    let scale = h / max_height as int + 1;
                    assert(block_side(w, scale) * block_side(h, scale) == block_side(h, scale)
                        * block_side(w, scale)) by (nonlinear_arith);
                } else {
                    lemma_longer_side(w, h, max_width as int, max_height as int);
                }
            }
        },
        None => {},
    }
}

} // verus!
