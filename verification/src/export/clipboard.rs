//! The bytes that go onto the Windows clipboard.
use vstd::prelude::*;
use crate::capture::CaptureResult;
use crate::export::png::flatten;
use crate::image::RgbaImage;
use crate::text::{is_text, slice_chars, to_chars, to_lower};

verus! {

// ---------------------------------------------------------------------------
// Little-endian numbers
// ---------------------------------------------------------------------------

pub open spec fn le2(n: int) -> Seq<u8> {
    seq![(n % 256) as u8, (n / 256 % 256) as u8]
}

pub open spec fn le4(n: int) -> Seq<u8> {
    seq![
        (n % 256) as u8,
        (n / 256 % 256) as u8,
        (n / 65536 % 256) as u8,
        (n / 16777216 % 256) as u8,
    ]
}

fn push_le2(out: &mut Vec<u8>, n: u16)
    ensures
        final(out)@ == old(out)@ + le2(n as int),
{
    out.push((n % 256) as u8);
    out.push((n / 256 % 256) as u8);
    assert(out@ =~= old(out)@ + le2(n as int));
}

/// Appends the low 32 bits of a number.
fn push_le4(out: &mut Vec<u8>, n: u64)
    ensures
        final(out)@ == old(out)@ + le4(n as int),
{
    out.push((n % 256) as u8);
    out.push((n / 256 % 256) as u8);
    out.push((n / 65536 % 256) as u8);
    out.push((n / 16777216 % 256) as u8);
    assert(out@ =~= old(out)@ + le4(n as int));
}

// ---------------------------------------------------------------------------
// Device-independent bitmap
// ---------------------------------------------------------------------------

/// The 40-byte header of a 32-bit uncompressed bottom-up bitmap.
pub open spec fn dib_header(width: int, height: int) -> Seq<u8> {
    le4(40) + le4(width) + le4(height) + le2(1) + le2(32) + le4(0) + le4(4 * (width * height))
        + le4(2835) + le4(2835) + le4(0) + le4(0)
}

/// Why an image cannot go onto the clipboard: it has no pixels.
#[derive(Debug, Clone, Copy, PartialEq, Eq, Structural)]
pub struct EmptyImage;

/// Whether `bytes` is the bitmap of the image: the header, then the rows from
/// the bottom up, each pixel as blue, green, red, alpha.
pub open spec fn is_dib(img: &RgbaImage, bytes: Seq<u8>) -> bool {
    &&& bytes.len() == 40 + 4 * (img.width * img.height)
    &&& bytes.subrange(0, 40) == dib_header(img.width as int, img.height as int)
    &&& forall|x: int, y: int|
        img.inside(x, y) ==> {
            let o = 40 + 4 * crate::image::pixel_index(
                img.width as int,
                x,
                img.height - 1 - y,
            );
            &&& bytes[o] == (#[trigger] img.at(x, y)).b
            &&& bytes[o + 1] == img.at(x, y).g
            &&& bytes[o + 2] == img.at(x, y).r
            &&& bytes[o + 3] == img.at(x, y).a
        }
}

/// The bitmap of an image for the clipboard.
pub fn put_dib(img: &RgbaImage) -> (r: Result<Vec<u8>, EmptyImage>)
    requires
        img.wf(),
    ensures
        match r {
            Ok(bytes) => img.width > 0 && img.height > 0 && is_dib(img, bytes@),
            Err(_) => img.width == 0 || img.height == 0,
        },
{
    let w: u32 = img.width;
    let h: u32 = img.height;
    if w == 0 || h == 0 {
        return Err(EmptyImage);
    }
    let len: usize = img.raw.len();
    let mut out: Vec<u8> = Vec::new();
    push_le4(&mut out, 40);
    push_le4(&mut out, w as u64);
    push_le4(&mut out, h as u64);
    push_le2(&mut out, 1);
    push_le2(&mut out, 32);
    push_le4(&mut out, 0);
    push_le4(&mut out, len as u64);
    push_le4(&mut out, 2835);
    push_le4(&mut out, 2835);
    push_le4(&mut out, 0);
    push_le4(&mut out, 0);
    let ghost header = out@;
    assert(header =~= dib_header(w as int, h as int));
    let mut row: u32 = 0;
    assert(4 * (w * row) == 0) by (nonlinear_arith)
        requires
            row == 0,
    ;
    while row < h
        invariant
            row <= h,
            w == img.width,
            h == img.height,
            img.wf(),
            header.len() == 40,
            out@.len() == 40 + 4 * (w * row),
            out@.subrange(0, 40) == header,
            forall|x: int, y: int|
                img.inside(x, y) && h - 1 - y < row ==> {
                    let o = 40 + 4 * crate::image::pixel_index(w as int, x, h - 1 - y);
                    &&& out@[o] == (#[trigger] img.at(x, y)).b
                    &&& out@[o + 1] == img.at(x, y).g
                    &&& out@[o + 2] == img.at(x, y).r
                    &&& out@[o + 3] == img.at(x, y).a
                },
        decreases h - row,
    {
        let y: u32 = h - 1 - row;
        let mut cx: u32 = 0;
        while cx < w
            invariant
                cx <= w,
                row < h,
                y == h - 1 - row,
                w == img.width,
                h == img.height,
                img.wf(),
                header.len() == 40,
                out@.len() == 40 + 4 * (w * row + cx),
                out@.subrange(0, 40) == header,
                forall|x: int, j: int|
                    img.inside(x, j) && (h - 1 - j < row || (h - 1 - j == row && x < cx)) ==> {
                        let o = 40 + 4 * crate::image::pixel_index(w as int, x, h - 1 - j);
                        &&& out@[o] == (#[trigger] img.at(x, j)).b
                        &&& out@[o + 1] == img.at(x, j).g
                        &&& out@[o + 2] == img.at(x, j).r
                        &&& out@[o + 3] == img.at(x, j).a
                    },
            decreases w - cx,
        {
            let ghost before = out@;
            let c = img.get_pixel(cx, y);
            out.push(c.b);
            out.push(c.g);
            out.push(c.r);
            out.push(c.a);
            proof {
                assert(out@.subrange(0, 40) =~= before.subrange(0, 40));
                assert(crate::image::pixel_index(w as int, cx as int, row as int) == w * row + cx)
                    by (nonlinear_arith)
                    requires
                        crate::image::pixel_index(w as int, cx as int, row as int) == row * w + cx,
                ;
                assert forall|x: int, j: int|
                    img.inside(x, j) && (h - 1 - j < row || (h - 1 - j == row && x < cx + 1))
                        implies {
                    let o = 40 + 4 * crate::image::pixel_index(w as int, x, h - 1 - j);
                    &&& out@[o] == (#[trigger] img.at(x, j)).b
                    &&& out@[o + 1] == img.at(x, j).g
                    &&& out@[o + 2] == img.at(x, j).r
                    &&& out@[o + 3] == img.at(x, j).a
                } by {
                    let k = crate::image::pixel_index(w as int, x, h - 1 - j);
                    let o = 40 + 4 * k;
                    if h - 1 - j < row || x < cx {
                        assert(k < w * row + cx && k >= 0) by (nonlinear_arith)
                            requires
                                k == (h - 1 - j) * w + x,
                                0 <= x < w,
                                0 <= h - 1 - j,
                                h - 1 - j < row || (h - 1 - j == row && x < cx),
                                0 <= cx,
                        ;
                        assert(out@[o] == before[o]);
                        assert(out@[o + 1] == before[o + 1]);
                        assert(out@[o + 2] == before[o + 2]);
                        assert(out@[o + 3] == before[o + 3]);
                    }
                }
            }
            cx += 1;
        }
        assert(w * row + w == w * (row + 1)) by (nonlinear_arith);
        row += 1;
    }
    Ok(out)
}

/// The bitmap of the flattened capture.
pub fn copy_to_clipboard(result: &CaptureResult) -> (r: Result<Vec<u8>, EmptyImage>)
    requires
        crate::editor::document::capture_wf(result),
    ensures
        exists|flat: RgbaImage| #[trigger]
            flat.wf() && flat.same_size(&result.base) && (forall|x: int, y: int|
                flat.inside(x, y) ==> #[trigger] flat.at(x, y)
                    == crate::export::png::flattened_at(result, x, y)) && match r {
                Ok(bytes) => flat.width > 0 && flat.height > 0 && is_dib(&flat, bytes@),
                Err(_) => flat.width == 0 || flat.height == 0,
            },
{
    let flat = flatten(result);
    put_dib(&flat)
}

// ---------------------------------------------------------------------------
// Files and text
// ---------------------------------------------------------------------------

/// What a file goes onto the clipboard as.
#[derive(Debug, Clone, Copy, PartialEq, Eq, Structural)]
pub enum ClipboardFormat {
    /// As a bitmap.
    Dib,
    /// As a file drop, which keeps an animation.
    FileDrop,
    /// As the text of its path.
    Text,
}

/// What a file with this extension goes onto the clipboard as: a PNG in any case of
/// letters as a bitmap, everything else as a file drop, and always as the text of
/// its path too.
pub open spec fn file_formats(extension: Option<Seq<char>>) -> Seq<ClipboardFormat> {
    let first = if extension matches Some(e) && crate::text::lower(e) == "png"@ {
        ClipboardFormat::Dib
    } else {
        ClipboardFormat::FileDrop
    };
    seq![first, ClipboardFormat::Text]
}

/// What a file with this extension goes onto the clipboard as.
pub fn copy_file_to_clipboard(extension: Option<&str>) -> (r: Vec<ClipboardFormat>)
    ensures
        r@ == file_formats(crate::text::optional_str(extension)),
{
    let first = match extension {
        Some(e) => {
            let v = to_chars(e);
            let low = to_lower(v.as_slice());
            if is_text(low.as_slice(), "png") {
                ClipboardFormat::Dib
            } else {
                ClipboardFormat::FileDrop
            }
        },
        None => ClipboardFormat::FileDrop,
    };
    vec![first, ClipboardFormat::Text]
}

/// The UTF-16 units of a character.
pub open spec fn utf16_units(c: char) -> Seq<u16> {
    let n = c as int;
    if n < 0x1_0000 {
        seq![n as u16]
    } else {
        seq![(0xd800 + (n - 0x1_0000) / 0x400) as u16, (0xdc00 + (n - 0x1_0000) % 0x400) as u16]
    }
}

/// A text in UTF-16.
pub open spec fn utf16(s: Seq<char>) -> Seq<u16>
    decreases s.len(),
{
    if s.len() == 0 {
        Seq::empty()
    } else {
        utf16(s.drop_last()) + utf16_units(s.last())
    }
}

fn push_units(out: &mut Vec<u16>, c: char)
    ensures
        final(out)@ == old(out)@ + utf16_units(c),
{
    let n: u32 = c as u32;
    if n < 0x1_0000 {
        out.push(n as u16);
    } else {
        let m: u32 = n - 0x1_0000;
        out.push((0xd800 + m / 0x400) as u16);
        out.push((0xdc00 + m % 0x400) as u16);
    }
    assert(out@ =~= old(out)@ + utf16_units(c));
}

fn to_utf16(s: &[char]) -> (r: Vec<u16>)
    ensures
        r@ == utf16(s@),
{
    let mut out: Vec<u16> = Vec::new();
    let mut i: usize = 0;
    while i < s.len()
        invariant
            i <= s@.len(),
            out@ == utf16(s@.take(i as int)),
        decreases s@.len() - i,
    {
        assert(s@.take(i + 1).drop_last() =~= s@.take(i as int));
        push_units(&mut out, s[i]);
        i += 1;
    }
    assert(s@.take(i as int) =~= s@);
    out
}

/// A list of 16-bit units as little-endian bytes.
pub open spec fn unit_bytes(s: Seq<u16>) -> Seq<u8>
    decreases s.len(),
{
    if s.len() == 0 {
        Seq::empty()
    } else {
        unit_bytes(s.drop_last()) + le2(s.last() as int)
    }
}

fn push_unit_bytes(out: &mut Vec<u8>, s: &Vec<u16>)
    ensures
        final(out)@ == old(out)@ + unit_bytes(s@),
{
    let mut i: usize = 0;
    assert(old(out)@ + unit_bytes(s@.take(0)) =~= old(out)@);
    while i < s.len()
        invariant
            i <= s@.len(),
            out@ == old(out)@ + unit_bytes(s@.take(i as int)),
        decreases s@.len() - i,
    {
        assert(s@.take(i + 1).drop_last() =~= s@.take(i as int));
        let ghost before = out@;
        push_le2(out, s[i]);
        assert(out@ =~= old(out)@ + unit_bytes(s@.take(i + 1)));
        i += 1;
    }
    assert(s@.take(i as int) =~= s@);
}

/// A text for the clipboard: UTF-16 with a terminating zero.
pub fn copy_text_to_clipboard(s: &str) -> (r: Vec<u8>)
    ensures
        r@ == unit_bytes(utf16(s@).push(0)),
{
    let v = to_chars(s);
    let mut wide = to_utf16(v.as_slice());
    wide.push(0);
    let mut out: Vec<u8> = Vec::new();
    push_unit_bytes(&mut out, &wide);
    assert(Seq::<u8>::empty() + unit_bytes(wide@) =~= unit_bytes(wide@));
    out
}

/// A path without the prefix of a verbatim Windows path.
pub open spec fn friendly_path(path: Seq<char>) -> Seq<char> {
    if crate::text::occurs_at(path, "\\\\?\\"@, 0) {
        path.subrange(4, path.len() as int)
    } else {
        path
    }
}

/// Removes the prefix of a verbatim Windows path.
pub fn strip_verbatim(path: &[char]) -> (r: Vec<char>)
    ensures
        r@ == friendly_path(path@),
{
    proof {
        reveal_strlit("\\\\?\\");
    }
    let n: usize = path.len();
    if n >= 4 {
        let head = slice_chars(path, 0, 4);
        if is_text(head.as_slice(), "\\\\?\\") {
            return slice_chars(path, 4, n);
        }
    }
    let all = slice_chars(path, 0, n);
    assert(path@.subrange(0, n as int) =~= path@);
    all
}

/// The 20-byte header of a file drop: the offset of the list, no drop point,
/// wide characters.
pub open spec fn drop_header() -> Seq<u8> {
    le4(20) + le4(0) + le4(0) + le4(0) + le4(1)
}

/// One file as a file drop: the header, then the path in UTF-16, terminated,
/// then the end of the list.
pub fn put_hdrop(path: &str) -> (r: Vec<u8>)
    ensures
        r@ == drop_header() + unit_bytes(utf16(friendly_path(path@)).push(0).push(0)),
{
    let v = to_chars(path);
    let clean = strip_verbatim(v.as_slice());
    let mut wide = to_utf16(clean.as_slice());
    wide.push(0);
    wide.push(0);
    let mut out: Vec<u8> = Vec::new();
    push_le4(&mut out, 20);
    push_le4(&mut out, 0);
    push_le4(&mut out, 0);
    push_le4(&mut out, 0);
    push_le4(&mut out, 1);
    assert(out@ =~= drop_header());
    push_unit_bytes(&mut out, &wide);
    out
}

/// The number whose lowest byte comes first among the four bytes from `o` on.
pub open spec fn read4(s: Seq<u8>, o: int) -> int {
    s[o] + 256 * s[o + 1] + 65536 * s[o + 2] + 16777216 * s[o + 3]
}

/// The number whose lowest byte comes first among the two bytes from `o` on.
pub open spec fn read2(s: Seq<u8>, o: int) -> int {
    s[o] + 256 * s[o + 1]
}

/// Numbers are written so that reading them, lowest byte first, gives them back.
pub proof fn law_numbers_read_back(n: int)
    ensures
        0 <= n < 0x1_0000 ==> le2(n).len() == 2 && read2(le2(n), 0) == n,
        0 <= n < 0x1_0000_0000 ==> le4(n).len() == 4 && read4(le4(n), 0) == n,
{
}

/// The header of a bitmap says its own length, the size of the picture with
/// the rows from the bottom up, one plane of 32 bits a pixel without
/// compression, and how many bytes the pixels take.
pub proof fn law_header_describes_the_picture(width: int, height: int)
    requires
        0 <= width < 0x8000_0000,
        0 <= height < 0x8000_0000,
        0 <= 4 * (width * height) < 0x1_0000_0000,
    ensures
        ({
            let h = dib_header(width, height);
            &&& h.len() == 40
            &&& read4(h, 0) == h.len()
            &&& read4(h, 4) == width
            &&& read4(h, 8) == height
            &&& read2(h, 12) == 1
            &&& read2(h, 14) == 32
            &&& read4(h, 16) == 0
            &&& read4(h, 20) == 4 * (width * height)
            &&& read4(h, 24) == read4(h, 28) == 2835
            &&& read4(h, 32) == 0 && read4(h, 36) == 0
        }),
{
    law_numbers_read_back(40);
    law_numbers_read_back(width);
    law_numbers_read_back(height);
    law_numbers_read_back(4 * (width * height));
    law_numbers_read_back(2835);
}

/// A bitmap holds the rows from the bottom up, and each pixel as blue, green,
/// red and alpha.
pub proof fn law_bitmap_is_upside_down(img: &RgbaImage, bytes: Seq<u8>, x: int, y: int)
    requires
        img.wf(),
        is_dib(img, bytes),
        img.inside(x, y),
    ensures
        ({
            let o = 40 + 4 * (((img.height - 1 - y) * img.width) + x);
            &&& bytes[o] == img.raw@[4 * (y * img.width + x) + 2]
            &&& bytes[o + 1] == img.raw@[4 * (y * img.width + x) + 1]
            &&& bytes[o + 2] == img.raw@[4 * (y * img.width + x)]
            &&& bytes[o + 3] == img.raw@[4 * (y * img.width + x) + 3]
            &&& bytes.len() == 40 + img.raw@.len()
        }),
{
    assert(img.at(x, y).b == img.raw@[4 * (y * img.width + x) + 2]);
}

/// A file is offered in two ways, the text of its path last. It is offered as a
/// bitmap first exactly if it is a PNG file, however that is spelled.
pub proof fn law_file_is_offered_twice(extension: Option<Seq<char>>, other: Option<Seq<char>>)
    ensures
        file_formats(extension).len() == 2,
        file_formats(extension)[1] == ClipboardFormat::Text,
        file_formats(Some("png"@))[0] == ClipboardFormat::Dib || crate::text::lower("png"@)
            != "png"@,
        extension is None ==> file_formats(extension)[0] == ClipboardFormat::FileDrop,
        extension matches Some(e) ==> (file_formats(extension)[0] == ClipboardFormat::Dib <==> crate::text::lower(
            e,
        ) == "png"@),
        extension matches Some(e) ==> (file_formats(extension)[0] == ClipboardFormat::FileDrop
            <==> crate::text::lower(e) != "png"@),
{
}

/// A character below 0x10000 is one unit with its number. Any other is a pair:
/// a high one with the upper ten bits of what it exceeds that by, then a low
/// one with the lower ten.
pub proof fn law_units_give_the_character(c: char)
    ensures
        ({
            let u = utf16_units(c);
            let n = c as int;
            &&& n < 0x1_0000 <==> u.len() == 1
            &&& n >= 0x1_0000 <==> u.len() == 2
            &&& u.len() == 1 ==> u[0] == n && !(0xd800 <= u[0] < 0xe000)
            &&& u.len() == 2 ==> 0xd800 <= u[0] < 0xdc00 <= u[1] < 0xe000
            &&& u.len() == 2 ==> n == 0x1_0000 + 0x400 * (u[0] - 0xd800) + (u[1] - 0xdc00)
        }),
{
}

proof fn lemma_utf16_adds(a: Seq<char>, b: Seq<char>)
    ensures
        utf16(a + b) == utf16(a) + utf16(b),
    decreases b.len(),
{
    if b.len() == 0 {
        assert(a + b =~= a);
        assert(utf16(a) + utf16(b) =~= utf16(a));
    } else {
        assert((a + b).drop_last() =~= a + b.drop_last());
        lemma_utf16_adds(a, b.drop_last());
        assert(utf16(a + b) =~= utf16(a) + utf16(b));
    }
}

/// Texts are encoded character by character, in order.
pub proof fn law_text_is_encoded_in_order(a: Seq<char>, c: char, b: Seq<char>)
    ensures
        utf16(a + b) == utf16(a) + utf16(b),
        utf16(seq![c]) == utf16_units(c),
        utf16(Seq::empty()).len() == 0,
{
    lemma_utf16_adds(a, b);
    assert(seq![c].drop_last() =~= Seq::<char>::empty());
    assert(utf16(seq![c].drop_last()) =~= Seq::<u16>::empty());
    assert(utf16(seq![c]) =~= utf16_units(c));
}

/// Every unit takes two bytes at its own place, the lower one first.
pub proof fn law_units_take_two_bytes(s: Seq<u16>)
    ensures
        unit_bytes(s).len() == 2 * s.len(),
        forall|i: int|
            #![trigger s[i]]
            0 <= i < s.len() ==> unit_bytes(s)[2 * i] + 256 * unit_bytes(s)[2 * i + 1] == s[i],
    decreases s.len(),
{
    if s.len() > 0 {
        law_units_take_two_bytes(s.drop_last());
        let n = s.len() - 1;
        law_numbers_read_back(s[n] as int);
        assert forall|i: int| #![trigger s[i]] 0 <= i < s.len() implies unit_bytes(s)[2 * i] + 256
            * unit_bytes(s)[2 * i + 1] == s[i] by {
            if i < n {
                assert(s.drop_last()[i] == s[i]);
                assert(unit_bytes(s)[2 * i] == unit_bytes(s.drop_last())[2 * i]);
                assert(unit_bytes(s)[2 * i + 1] == unit_bytes(s.drop_last())[2 * i + 1]);
            } else {
                assert(unit_bytes(s)[2 * n] == le2(s[n] as int)[0]);
                assert(unit_bytes(s)[2 * n + 1] == le2(s[n] as int)[1]);
            }
        }
    }
}

/// A path loses the prefix of verbatim paths, and any other stays as it is.
pub proof fn law_verbatim_prefix_is_dropped(rest: Seq<char>, path: Seq<char>)
    ensures
        friendly_path(seq!['\\', '\\', '?', '\\'] + rest) == rest,
        path.len() < 4 || path[0] != '\\' || path[1] != '\\' || path[2] != '?' || path[3] != '\\'
            ==> friendly_path(path) == path,
{
    reveal_strlit("\\\\?\\");
    let full = seq!['\\', '\\', '?', '\\'] + rest;
    assert("\\\\?\\"@ =~= seq!['\\', '\\', '?', '\\']);
    assert(full.subrange(0, 4) =~= "\\\\?\\"@);
    assert(full.subrange(4, full.len() as int) =~= rest);
    if crate::text::occurs_at(path, "\\\\?\\"@, 0) {
        assert(path.subrange(0, 4)[0] == path[0]);
        assert(path.subrange(0, 4)[1] == path[1]);
        assert(path.subrange(0, 4)[2] == path[2]);
        assert(path.subrange(0, 4)[3] == path[3]);
    }
}

/// The header of a file drop says that the paths begin right behind it and are
/// in wide characters; the point and the flag of its window are zero.
pub proof fn law_drop_header_points_behind_itself()
    ensures
        drop_header().len() == 20,
        read4(drop_header(), 0) == drop_header().len(),
        read4(drop_header(), 4) == 0 && read4(drop_header(), 8) == 0,
        read4(drop_header(), 12) == 0,
        read4(drop_header(), 16) == 1,
{
    law_numbers_read_back(20);
    law_numbers_read_back(0);
    law_numbers_read_back(1);
}

} // verus!
