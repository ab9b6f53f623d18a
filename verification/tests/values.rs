use grabit::capture::Rect;
use grabit::clock::CivilTime;
use grabit::codec::{data_uri, decode_file, decode_image, encode_png, thumb_of_file, thumb_uri};
use grabit::editor::tools::stamp::{builtin_bytes, builtin_names, resolve, StampFault};
use grabit::editor::document::StampSource;
use grabit::export::clipboard::{
    copy_file_to_clipboard, copy_text_to_clipboard, put_dib, put_hdrop, strip_verbatim,
    ClipboardFormat,
};
use grabit::history::Kind;
use grabit::image::RgbaImage;
use grabit::platform::monitors::{enumerate, virtual_desktop_rect, RawMonitor};
use grabit::presets::Preset;
use grabit::px::{Bounds, Point, Px, Rgba};
use grabit::text::{
    char_is_control, char_is_white, decimal_chars, is_text, replace_chars, split_chars, text_le,
    to_chars, to_lower, trim_chars, CharClass,
};

fn px(v: f32) -> Px {
    Px { bits: v.to_bits() }
}

#[test]
fn lengths_are_ordered_like_the_numbers_they_stand_for() {
    let values = [
        0.0f32,
        -0.0,
        1.0,
        -1.0,
        1.5,
        -2.5,
        1.0e-40,
        -1.0e-40,
        f32::MAX,
        f32::MIN,
        f32::INFINITY,
        f32::NEG_INFINITY,
        f32::NAN,
        f32::EPSILON,
    ];
    for a in values {
        for b in values {
            assert_eq!(px(a).le(px(b)), a <= b, "{a} {b}");
            let min = f32::from_bits(px(a).min(px(b)).bits);
            let max = f32::from_bits(px(a).max(px(b)).bits);
            if !a.is_nan() && !b.is_nan() {
                assert_eq!(min, a.min(b));
                assert_eq!(max, a.max(b));
            }
        }
        if !a.is_nan() {
            let c = f32::from_bits(px(a).clamp(px(-1.0), px(2.0)).bits);
            assert_eq!(c, a.clamp(-1.0, 2.0));
        }
    }
}

#[test]
fn boxes_between_points() {
    let p = |x: f32, y: f32| Point { x: px(x), y: px(y) };
    let b = Bounds::between(p(5.0, -1.0), p(2.0, 3.0));
    assert_eq!(b, Bounds { min_x: px(2.0), min_y: px(-1.0), max_x: px(5.0), max_y: px(3.0) });
    assert!(b.contains(p(2.0, 3.0)) && b.contains(p(3.0, 0.0)));
    assert!(!b.contains(p(1.9, 0.0)));
    assert_eq!(b.normalise(), b);
}

#[test]
fn character_classes_match_the_standard_library() {
    for n in 0..0x11_0000u32 {
        if let Some(c) = char::from_u32(n) {
            assert_eq!(char_is_white(c), c.is_whitespace(), "{n:x}");
            assert_eq!(char_is_control(c), c.is_control(), "{n:x}");
        }
    }
}

#[test]
fn text_helpers_match_the_standard_library() {
    for s in ["", "  a b ", "\u{a0}x\t", "\u{2003}\n", "...a. ", "a+b++c", "a/b/"] {
        let v = to_chars(s);
        let trimmed: String = trim_chars(&v, CharClass::Whitespace).iter().collect();
        assert_eq!(trimmed, s.trim());
        let dots: String = trim_chars(&v, CharClass::DotOrWhitespace).iter().collect();
        assert_eq!(dots, s.trim_matches(|c: char| c == '.' || c.is_whitespace()));
        let parts: Vec<String> =
            split_chars(&v, CharClass::Plus).iter().map(|p| p.iter().collect()).collect();
        assert_eq!(parts, s.split('+').collect::<Vec<_>>());
        let low: String = to_lower(&v).iter().collect();
        assert_eq!(low, s.to_ascii_lowercase());
    }
    for (s, p, w) in [("aaa", "aa", "b"), ("{t}-{t}", "{t}", "{t}x"), ("none", "zz", "")] {
        let out: String = replace_chars(&to_chars(s), &to_chars(p), &to_chars(w)).iter().collect();
        assert_eq!(out, s.replace(p, w));
    }
    for n in [0u64, 7, 10, 99, 1234567890, u64::MAX] {
        assert!(is_text(&decimal_chars(n), &n.to_string()));
    }
    for (a, b) in [("a", "b"), ("b", "a"), ("", "a"), ("ab", "a"), ("a", "a"), ("\u{e9}", "z")] {
        assert_eq!(text_le(&to_chars(a), &to_chars(b)), a <= b);
    }
}

#[test]
fn times_in_file_names_are_written_in_full() {
    let t = CivilTime { year: 7, month: 2, day: 3, hour: 4, minute: 5, second: 6, nanosecond: 7 };
    let p = Preset { filename_template: "{timestamp}".into(), ..Preset::default() };
    assert_eq!(p.resolve_png_path(None, &t).file_name, "00070203-040506.png");
}

#[test]
fn data_uris_hold_standard_base64() {
    assert_eq!(data_uri(&vec![]), "data:image/png;base64,");
    assert_eq!(data_uri(&vec![0xfb]), "data:image/png;base64,+w==");
    assert_eq!(data_uri(&vec![0xff, 0xef]), "data:image/png;base64,/+8=");
    assert_eq!(data_uri(&b"Man".to_vec()), "data:image/png;base64,TWFu");
}

#[test]
fn thumbnails_keep_the_aspect_ratio() {
    let img = RgbaImage::from_pixel(640, 160, Rgba::new(1, 2, 3, 255));
    let png = encode_png(&img).unwrap();
    let uri = thumb_of_file(&png, Kind::Png, 320, 180).unwrap();
    assert!(uri.starts_with("data:image/png;base64,"));
    assert_eq!(uri, thumb_uri(&img, 320, 180).unwrap());
    // The thumbnail itself is 320 by 80, in the same colour.
    let small = RgbaImage::from_pixel(320, 80, Rgba::new(1, 2, 3, 255));
    assert_eq!(uri, data_uri(&encode_png(&small).unwrap()));
    // A PNG file is no GIF file.
    assert!(thumb_of_file(&png, Kind::Gif, 320, 180).is_none());
    assert!(decode_file(&png, Kind::Png).is_some() && decode_file(&png, Kind::Gif).is_none());
    assert!(thumb_of_file(&vec![0, 1], Kind::Png, 320, 180).is_none());
    // A very long picture has one too.
    let long = RgbaImage::from_pixel(720_001, 1, Rgba::new(9, 8, 7, 255));
    let line = RgbaImage::from_pixel(240, 1, Rgba::new(9, 8, 7, 255));
    assert_eq!(
        thumb_of_file(&encode_png(&long).unwrap(), Kind::Png, 240, 180).unwrap(),
        data_uri(&encode_png(&line).unwrap()),
    );
}

#[test]
fn all_builtins_decode() {
    let assets: Vec<Vec<u8>> = (1..=4u32)
        .map(|n| encode_png(&RgbaImage::from_pixel(n, 2 * n, Rgba::new(7, 7, 7, 255))).unwrap())
        .collect();
    for (i, name) in builtin_names().into_iter().enumerate() {
        let img = resolve(&StampSource::Builtin { name: name.to_string() }, &assets).unwrap();
        assert!(img.width > 0);
        assert!(img.height > 0);
        assert_eq!(img.width as usize, i + 1);
    }
}

#[test]
fn stamps_are_found_by_name() {
    let img = RgbaImage::from_pixel(2, 1, Rgba::new(5, 6, 7, 255));
    let png = encode_png(&img).unwrap();
    let assets = vec![vec![1u8], png.clone(), vec![3u8], vec![4u8]];
    assert_eq!(builtin_names(), vec!["arrow", "check", "x", "star"]);
    assert_eq!(builtin_bytes("star", &assets), Some(&vec![4u8]));
    assert!(builtin_bytes("heart", &assets).is_none());
    let found = resolve(&StampSource::Builtin { name: "check".into() }, &assets).unwrap();
    assert_eq!(found.raw, img.raw);
    let inline = resolve(&StampSource::Inline { png }, &assets).unwrap();
    assert_eq!(inline.raw, img.raw);
    match resolve(&StampSource::Builtin { name: "heart".into() }, &assets) {
        Err(StampFault::Unknown(n)) => assert_eq!(n, "heart"),
        other => panic!("{other:?}"),
    }
    let broken = resolve(&StampSource::Inline { png: vec![9] }, &assets);
    assert!(matches!(broken, Err(StampFault::Unreadable)));
}

#[test]
fn clipboard_pictures_are_upside_down_and_blue_first() {
    let mut img = RgbaImage::from_pixel(1, 2, Rgba::new(1, 2, 3, 4));
    img.put_pixel(0, 1, Rgba::new(5, 6, 7, 8));
    let dib = put_dib(&img).unwrap();
    assert_eq!(dib.len(), 40 + 8);
    assert_eq!(&dib[0..4], &40u32.to_le_bytes());
    assert_eq!(&dib[4..8], &1i32.to_le_bytes());
    assert_eq!(&dib[40..44], &[7, 6, 5, 8]);
    assert_eq!(&dib[44..48], &[3, 2, 1, 4]);
    assert!(put_dib(&RgbaImage::from_pixel(0, 0, Rgba::new(0, 0, 0, 0))).is_err());
}

#[test]
fn clipboard_texts_are_wide_and_terminated() {
    let bytes = copy_text_to_clipboard("a\u{1f600}");
    let units: Vec<u16> =
        bytes.chunks(2).map(|c| u16::from_le_bytes([c[0], c[1]])).collect();
    let mut expected: Vec<u16> = "a\u{1f600}".encode_utf16().collect();
    expected.push(0);
    assert_eq!(units, expected);
    let drop = put_hdrop("\\\\?\\C:\\x.gif");
    assert_eq!(&drop[0..4], &20u32.to_le_bytes());
    assert_eq!(&drop[16..20], &1u32.to_le_bytes());
    let path: Vec<u16> =
        drop[20..].chunks(2).map(|c| u16::from_le_bytes([c[0], c[1]])).collect();
    let mut expected: Vec<u16> = "C:\\x.gif".encode_utf16().collect();
    expected.push(0);
    expected.push(0);
    assert_eq!(path, expected);
    let plain: String = strip_verbatim(&to_chars("C:\\y")).iter().collect();
    assert_eq!(plain, "C:\\y");
}

#[test]
fn files_go_to_the_clipboard_by_their_kind() {
    let (dib, drop, text) =
        (ClipboardFormat::Dib, ClipboardFormat::FileDrop, ClipboardFormat::Text);
    assert_eq!(copy_file_to_clipboard(Some("PNG")), vec![dib, text]);
    assert_eq!(copy_file_to_clipboard(Some("png")), vec![dib, text]);
    assert_eq!(copy_file_to_clipboard(Some("gif")), vec![drop, text]);
    assert_eq!(copy_file_to_clipboard(None), vec![drop, text]);
}

#[test]
fn monitors_are_listed_in_order() {
    let raw = |l: i32, t: i32, r: i32, b: i32, flags: u32| RawMonitor {
        left: l,
        top: t,
        right: r,
        bottom: b,
        flags,
        scale_factor: px(1.5),
    };
    let list = enumerate(&[raw(-100, 0, 0, 50, 0), raw(0, 0, 10, -5, 3)]);
    assert_eq!(list.len(), 2);
    assert_eq!(list[0].rect, Rect { x: -100, y: 0, width: 100, height: 50 });
    assert!(!list[0].is_primary && list[1].is_primary);
    assert_eq!(list[1].rect, Rect { x: 0, y: 0, width: 10, height: 0 });
    assert_eq!(list[1].scale_factor, px(1.5));
    assert_eq!(virtual_desktop_rect(-5, 6, -1, 7), Rect { x: -5, y: 6, width: 0, height: 7 });
}

#[test]
fn written_pictures_are_read_back() {
    let mut img = RgbaImage::from_pixel(5, 3, Rgba::new(1, 2, 3, 4));
    img.put_pixel(4, 2, Rgba::new(250, 0, 9, 0));
    let back = decode_image(&encode_png(&img).unwrap()).unwrap();
    assert_eq!((back.width, back.height), (5, 3));
    assert_eq!(back.raw, img.raw);
    assert!(encode_png(&RgbaImage::from_pixel(0, 3, Rgba::new(0, 0, 0, 0))).is_none());
    assert!(encode_png(&RgbaImage::from_pixel(3, 0, Rgba::new(0, 0, 0, 0))).is_none());
    assert!(decode_image(&vec![1, 2, 3]).is_none());
}
