use grabit::capture::{CaptureMetadata, MonitorInfo, Rect};
use grabit::clock::CivilTime;
use grabit::codec::encode_png;
use grabit::editor::document::{
    AnnotationNode, ArrowHeadStyle, Border, CaptureInfoStyle, Edge, EdgeEffect, FieldKind, NodeId, SerializedCursor,
    StampSource, TextAlign, TextListStyle,
};
use grabit::editor::flatten::{
    apply_document_effects, bake, compose_cursor, fill_where, flatten, parts, sample_where, Part,
};
use grabit::editor::layout::{
    compose_text_lines, draw_text_box, layout_text, wrap_paragraph, TextStep,
};
use grabit::editor::paint::{
    draw_arrow, draw_blur, draw_capture_info, draw_magnify, draw_shape, draw_smoothed, draw_stamp,
    draw_text_frosted, draw_text_shadow, shaft_trims, ArrowStroke,
};
use grabit::editor::preview::{banner_extent, crop_banner};
use grabit::editor::rasterize::{
    apply_border, apply_torn_edge, border_fits, capture_info_lines, crop, darken, downsample_over,
    edge_salt, shadow_layer, shadow_tint, tooth_noise, BorderMetrics, TornDepths,
};
use grabit::image::{blend, blend_area, blend_pixel, draw_over, fill_area, RgbaImage};
use grabit::px::{Bounds, Point, Px, Rgba};

fn px(v: f32) -> Px {
    Px { bits: v.to_bits() }
}

fn solid(w: u32, h: u32, c: Rgba) -> RgbaImage {
    RgbaImage::from_pixel(w, h, c)
}

/// How deep each column of an edge of this length is torn.
fn depths(len: u32, edge: Edge, depth: f32, teeth: f32) -> Vec<u32> {
    let depth = depth.max(1.0);
    let teeth = teeth.max(4.0);
    (0..len)
        .map(|x| {
            let idx = x as f32 / teeth;
            let frac = idx - idx.floor();
            let tri = 1.0 - (2.0 * frac - 1.0).abs();
            let noise = tooth_noise(idx.floor() as u32, edge_salt(edge)) as f32 / 65536.0;
            let j = 1.0 + (noise - 0.5) * 0.6;
            (depth * tri * j).max(0.0) as u32
        })
        .collect()
}

#[test]
fn apply_torn_edge_drops_pixels() {
    let base = solid(32, 32, Rgba::new(200, 100, 50, 255));
    let effect = EdgeEffect {
        edge: Edge::Bottom,
        top: false,
        bottom: true,
        left: false,
        right: false,
        depth: px(4.0),
        teeth: px(8.0),
    };
    let d = TornDepths {
        top: vec![],
        bottom: depths(32, Edge::Bottom, 4.0, 8.0),
        left: vec![],
        right: vec![],
    };
    let torn = apply_torn_edge(&base, effect, &d);
    // Some bottom-row pixels must now be transparent.
    let mut any_transparent = false;
    for x in 0..32 {
        if torn.get_pixel(x, 31).a == 0 {
            any_transparent = true;
            break;
        }
    }
    assert!(any_transparent);
    assert!((0..32).all(|x| torn.get_pixel(x, 0) == base.get_pixel(x, 0)));
}

#[test]
fn apply_border_grows_image() {
    let base = solid(32, 32, Rgba::new(200, 100, 50, 255));
    let border = Border {
        color: Rgba::new(0, 0, 0, 255),
        width: px(4.0),
        shadow_radius: px(0.0),
        shadow_offset: Point { x: px(0.0), y: px(0.0) },
        shadow_color: Rgba::new(0, 0, 0, 0),
        matte_width: px(0.0),
        matte_color: Rgba::new(245, 240, 230, 255),
    };
    let m = BorderMetrics { border: 4, matte: 0, shadow_radius: 0, shadow_dx: 0, shadow_dy: 0 };
    assert!(border_fits(m, 32, 32));
    let out = apply_border(&base, &border, m, &|c: RgbaImage| c);
    assert_eq!(out.width, 32 + 8);
    assert_eq!(out.height, 32 + 8);
    // Border pixel is black.
    let b = out.get_pixel(1, 1);
    assert_eq!(b, Rgba::new(0, 0, 0, 255));
    // Content pixel preserved.
    let c = out.get_pixel(4 + 16, 4 + 16);
    assert_eq!(c, Rgba::new(200, 100, 50, 255));
}

#[test]
fn a_matte_lies_between_frame_and_picture() {
    let base = solid(2, 2, Rgba::new(9, 9, 9, 255));
    let border = Border::default();
    let m = BorderMetrics { border: 2, matte: 1, shadow_radius: 0, shadow_dx: 3, shadow_dy: -1 };
    let out = apply_border(&base, &border, m, &|c: RgbaImage| c);
    assert_eq!((out.width, out.height), (2 + 6 + 3, 2 + 6 + 1));
    assert_eq!(out.get_pixel(3, 1 + 3), base.get_pixel(0, 0));
    assert_eq!(out.get_pixel(2, 1 + 3), border.matte_color);
    assert_eq!(out.get_pixel(1, 1 + 3), border.color);
    let layer = shadow_layer(2, 2, &border, m);
    assert_eq!((layer.width, layer.height), (out.width, out.height));
    let huge = BorderMetrics { border: u32::MAX / 2, ..m };
    assert!(!border_fits(huge, 2, 2));
}

#[test]
fn effects_are_applied_in_order() {
    let flat = solid(4, 4, Rgba::new(50, 60, 70, 255));
    let effect = EdgeEffect { edge: Edge::Top, ..EdgeEffect::default() };
    let d = TornDepths { top: vec![1, 0, 0, 2], bottom: vec![0; 4], left: vec![0; 4], right: vec![0; 4] };
    let m = BorderMetrics { border: 1, matte: 0, shadow_radius: 0, shadow_dx: 0, shadow_dy: 0 };
    let border = Border { shadow_color: Rgba::new(0, 0, 0, 0), ..Border::default() };
    let soften = |i: RgbaImage| i;
    let out = apply_document_effects(
        solid(4, 4, Rgba::new(50, 60, 70, 255)),
        Some((effect, d)),
        Some((border, m)),
        &soften,
    );
    assert_eq!((out.width, out.height), (6, 6));
    // The torn corner shows the frame below it, not the picture.
    assert_eq!(out.get_pixel(1, 1), border.color);
    assert_eq!(out.get_pixel(2, 1), flat.get_pixel(1, 0));
    assert_eq!(out.get_pixel(4, 2), border.color);
    assert_eq!(out.get_pixel(4, 3), flat.get_pixel(3, 2));
    let same = apply_document_effects(solid(1, 1, Rgba::new(1, 2, 3, 4)), None, None, &soften);
    assert_eq!(same.raw, vec![1, 2, 3, 4]);
}

#[test]
fn a_soft_shadow_goes_through_the_blur() {
    let m = BorderMetrics { border: 1, matte: 0, shadow_radius: 1, shadow_dx: 0, shadow_dy: 0 };
    let border = Border { shadow_color: Rgba::new(0, 0, 0, 200), ..Border::default() };
    let mark = Rgba::new(7, 7, 7, 7);
    let soften = |i: RgbaImage| RgbaImage::from_pixel(i.width, i.height, Rgba::new(7, 7, 7, 7));
    let out = apply_document_effects(solid(2, 2, Rgba::new(1, 1, 1, 255)), None, Some((border, m)), &soften);
    assert_eq!((out.width, out.height), (6, 6));
    assert_eq!(out.get_pixel(0, 0), mark);
    assert_eq!(out.get_pixel(2, 2), Rgba::new(1, 1, 1, 255));
}

#[test]
fn blending_follows_the_formula() {
    let dst = Rgba::new(100, 200, 0, 255);
    assert_eq!(blend(dst, Rgba::new(9, 9, 9, 0)), dst);
    assert_eq!(blend(dst, Rgba::new(9, 8, 7, 255)), Rgba::new(9, 8, 7, 255));
    // (255 * 128 + 100 * 127) / 255 and so on.
    assert_eq!(blend(dst, Rgba::new(255, 0, 255, 128)), Rgba::new(177, 99, 128, 255));
    assert_eq!(blend(Rgba::new(0, 0, 0, 0), Rgba::new(200, 0, 0, 100)), Rgba::new(78, 0, 0, 100));
}

#[test]
fn areas_are_cut_off_at_the_edge() {
    let mut img = solid(3, 3, Rgba::new(0, 0, 0, 255));
    fill_area(&mut img, 1, 1, 9, 2, Rgba::new(5, 5, 5, 5));
    assert_eq!(img.get_pixel(2, 1), Rgba::new(5, 5, 5, 5));
    assert_eq!(img.get_pixel(0, 1), Rgba::new(0, 0, 0, 255));
    blend_area(&mut img, 0, 2, 1, 9, Rgba::new(255, 255, 255, 255));
    assert_eq!(img.get_pixel(0, 2), Rgba::new(255, 255, 255, 255));
    assert_eq!(img.get_pixel(1, 2), Rgba::new(0, 0, 0, 255));
    blend_pixel(&mut img, 7, 7, Rgba::new(1, 1, 1, 255));
    let dot = solid(2, 2, Rgba::new(9, 9, 9, 255));
    draw_over(&mut img, &dot, -1, -1);
    assert_eq!(img.get_pixel(0, 0), Rgba::new(9, 9, 9, 255));
    assert_eq!(img.get_pixel(1, 0), Rgba::new(0, 0, 0, 255));
}

#[test]
fn shapes_are_filled_where_they_cover() {
    let mut img = solid(8, 8, Rgba::new(0, 0, 0, 255));
    // A disc of radius 2 round (4, 4).
    let covers = |x: u32, y: u32| {
        let (dx, dy) = (x as f32 + 0.5 - 4.0, y as f32 + 0.5 - 4.0);
        dx * dx + dy * dy <= 4.0
    };
    fill_where(&mut img, (0, 0, 100, 100), &covers, Rgba::new(255, 0, 0, 255));
    for y in 0..8 {
        for x in 0..8 {
            let expected = if covers(x, y) { 255 } else { 0 };
            assert_eq!(img.get_pixel(x, y).r, expected);
        }
    }
    // Nothing outside the area changes.
    fill_where(&mut img, (2, 2, 3, 3), &|_, _| true, Rgba::new(0, 255, 0, 255));
    assert_eq!(img.get_pixel(2, 2).g, 255);
    assert_eq!(img.get_pixel(3, 2).g, 0);
}

#[test]
fn pictures_are_sampled_where_told() {
    let mut canvas = solid(4, 4, Rgba::new(0, 0, 0, 0));
    let mut base = solid(2, 2, Rgba::new(10, 10, 10, 255));
    base.put_pixel(1, 1, Rgba::new(99, 0, 0, 255));
    // Doubled in size; the last row points outside the picture.
    let source = |x: u32, y: u32| if y == 3 { Some((x / 2, 9)) } else { Some((x / 2, y / 2)) };
    sample_where(&mut canvas, &base, (0, 0, 4, 4), &source);
    assert_eq!(canvas.get_pixel(0, 0), Rgba::new(10, 10, 10, 255));
    assert_eq!(canvas.get_pixel(3, 2), Rgba::new(99, 0, 0, 255));
    assert_eq!(canvas.get_pixel(3, 3), Rgba::new(0, 0, 0, 0));
    sample_where(&mut canvas, &base, (0, 0, 1, 1), &|_, _| None);
    assert_eq!(canvas.get_pixel(0, 0), Rgba::new(10, 10, 10, 255));
}

fn text_box(frosted: bool, shadow: bool) -> AnnotationNode {
    AnnotationNode::Text {
        id: NodeId { value: 1 },
        rect: Bounds { min_x: px(0.0), min_y: px(0.0), max_x: px(1.0), max_y: px(1.0) },
        text: "t".into(),
        color: Rgba::new(0, 0, 0, 255),
        size_px: px(12.0),
        frosted,
        shadow,
        align: TextAlign::Left,
        list: TextListStyle::Plain,
    }
}

#[test]
fn effects_of_a_text_box_lie_below_it() {
    assert_eq!(parts(&text_box(true, true)), vec![Part::Shadow, Part::Frost, Part::Body]);
    assert_eq!(parts(&text_box(true, false)), vec![Part::Frost, Part::Body]);
    assert_eq!(parts(&text_box(false, false)), vec![Part::Body]);
}

#[test]
fn annotations_are_baked_in_order_from_the_untouched_picture() {
    let base = solid(1, 1, Rgba::new(4, 0, 0, 255));
    let blur =
        AnnotationNode::Blur { id: NodeId { value: 2 }, rect: Bounds { min_x: px(0.0), min_y: px(0.0), max_x: px(1.0), max_y: px(1.0) }, radius_px: px(2.0) };
    // Each step adds ten and a number of its own to green, and copies the red that it sees.
    let paint = |mut c: RgbaImage, b: &RgbaImage, _n: &AnnotationNode, p: Part| {
        let old = c.get_pixel(0, 0);
        let step = match p {
            Part::Shadow => 1,
            Part::Frost => 2,
            Part::Body => 3,
        };
        let g = old.g.wrapping_mul(5).wrapping_add(step);
        c.put_pixel(0, 0, Rgba::new(b.get_pixel(0, 0).r, g, old.r, 255));
        c
    };
    let out = flatten(&base, &vec![text_box(true, true), blur], &paint);
    // ((1 * 5 + 2) * 5 + 3) * 5 + 3
    assert_eq!(out.get_pixel(0, 0), Rgba::new(4, 193, 4, 255));
    assert_eq!(base.get_pixel(0, 0), Rgba::new(4, 0, 0, 255));
    assert_eq!(flatten(&base, &vec![], &paint).raw, base.raw);
}

#[test]
fn colours_of_outlines_and_shadows_match_their_fractions() {
    for v in 0..=255u8 {
        let c = Rgba::new(v, v, v, 77);
        assert_eq!(darken(c).r, (v as f32 * 0.5) as u8);
        assert_eq!(darken(c).a, 77);
        assert_eq!(shadow_tint(c).g, (v as f32 * 0.3) as u8);
        assert_eq!(shadow_tint(c).a, 170);
    }
}

#[test]
fn supersampled_blocks_are_averaged() {
    let mut canvas = solid(2, 1, Rgba::new(0, 0, 0, 255));
    let mut hi = solid(8, 4, Rgba::new(0, 0, 0, 0));
    for y in 0..4 {
        for x in 0..4 {
            hi.put_pixel(x, y, Rgba::new(200, 100, 0, 255));
        }
    }
    downsample_over(&mut canvas, &hi, 0, 0);
    assert_eq!(canvas.get_pixel(0, 0), Rgba::new(200, 100, 0, 255));
    assert_eq!(canvas.get_pixel(1, 0), Rgba::new(0, 0, 0, 255));
    let part = crop(&hi, 3, 1, 2, 2);
    assert_eq!(part.get_pixel(0, 0), Rgba::new(200, 100, 0, 255));
    assert_eq!(part.get_pixel(1, 0), Rgba::new(0, 0, 0, 0));
}

#[test]
fn banners_are_cropped_to_what_can_be_seen() {
    let mut img = solid(5, 4, Rgba::new(0, 0, 0, 0));
    assert!(banner_extent(&img).is_none() && crop_banner(&img).is_none());
    img.put_pixel(1, 2, Rgba::new(3, 3, 3, 1));
    img.put_pixel(3, 0, Rgba::new(4, 4, 4, 255));
    assert_eq!(banner_extent(&img), Some((4, 3)));
    let b = crop_banner(&img).unwrap();
    assert_eq!((b.width, b.height), (4, 3));
    assert_eq!(b.get_pixel(1, 2), Rgba::new(3, 3, 3, 1));
}

fn text_of(lines: &[Vec<char>]) -> Vec<String> {
    lines.iter().map(|l| l.iter().collect()).collect()
}

#[test]
fn paragraphs_wrap_at_words_and_break_long_ones() {
    // Every character is one wide, the box is six.
    let fits = |m: &[char], c: &[char], w: &[char]| m.len() + c.len() + w.len() <= 6;
    let prefix = |m: &[char], _w: &[char]| 6 - m.len();
    let s: Vec<char> = "aa bb cccc dddddddd e".chars().collect();
    let lines = text_of(&wrap_paragraph(&s, &[], &fits, &prefix));
    assert_eq!(lines, vec!["aa bb", "cccc", "dddddd", "dd e"]);
    let blank: Vec<char> = "   ".chars().collect();
    assert!(wrap_paragraph(&blank, &[], &fits, &prefix).is_empty());
}

#[test]
fn lists_number_only_paragraphs_with_text() {
    let fits = |_m: &[char], _c: &[char], _w: &[char]| true;
    let prefix = |_m: &[char], w: &[char]| w.len();
    let p = layout_text("a\n\nb", TextListStyle::Numbered, &fits, &prefix);
    let markers: Vec<String> = p.iter().map(|p| p.marker.iter().collect()).collect();
    assert_eq!(markers, vec!["1. ", "", "2. "]);
    assert!(p[1].blank && p[1].lines.is_empty());
    let b = layout_text("first\n\nsecond", TextListStyle::Bullet, &fits, &prefix);
    let marker: String = b[2].marker.iter().collect();
    assert_eq!(marker, "\u{2022} ");
    assert_eq!(text_of(&b[2].lines), vec!["second"]);
    assert_eq!(compose_text_lines("x\ny", TextListStyle::Plain), vec!["x", "y"]);
    assert_eq!(compose_text_lines("x\n\ny", TextListStyle::Numbered)[2], "2. y");
}

#[test]
fn info_lines_skip_what_is_missing() {
    let meta = CaptureMetadata {
        captured_at: CivilTime {
            year: 2026,
            month: 4,
            day: 21,
            hour: 12,
            minute: 0,
            second: 0,
            nanosecond: 0,
        },
        foreground_title: None,
        foreground_process: Some("proc.exe".into()),
        os_version: "Windows 10.0".into(),
        monitors: vec![
            MonitorInfo {
                rect: Rect { x: 0, y: 0, width: 1920, height: 1080 },
                scale_factor: px(1.0),
                is_primary: true,
            },
            MonitorInfo {
                rect: Rect { x: 1920, y: 0, width: 800, height: 600 },
                scale_factor: px(1.0),
                is_primary: false,
            },
        ],
        capture_rect: Rect { x: 0, y: 0, width: 64, height: 64 },
    };
    let fields = vec![
        FieldKind::Timestamp,
        FieldKind::WindowTitle,
        FieldKind::ProcessName,
        FieldKind::MonitorInfo,
    ];
    let lines = capture_info_lines(Some(&meta), &fields);
    assert_eq!(lines.len(), 3);
    assert!(lines[0].ends_with(": 2026-04-21 12:00:00"), "{}", lines[0]);
    assert!(lines[1].ends_with(": proc.exe"));
    assert!(lines[2].ends_with(": 1920x1080* 800x600"));
    assert!(capture_info_lines(None, &fields).is_empty());
}

#[test]
fn tooth_noise_is_sixteen_bits_wide() {
    for n in 0..1000 {
        let mut s = (n as u32).wrapping_mul(2654435761).wrapping_add(3u32.wrapping_mul(40503));
        s ^= s >> 16;
        s = s.wrapping_mul(0x85eb_ca6b);
        assert_eq!(tooth_noise(n, 3), s & 0xFFFF);
    }
}

/// The Gaussian blur of a picture.
fn blurred(img: &RgbaImage, sigma: f32) -> RgbaImage {
    let picture = image::RgbaImage::from_raw(img.width, img.height, img.raw.clone()).unwrap();
    let soft = imageproc::filter::gaussian_blur_f32(&picture, sigma);
    RgbaImage { width: img.width, height: img.height, raw: soft.into_raw() }
}

#[test]
fn draw_rect_stays_in_bounds() {
    let img = solid(32, 32, Rgba::new(0, 0, 0, 0));
    let outline = |c: RgbaImage| {
        let mut c = c;
        for i in 4..28 {
            for (x, y) in [(i, 4), (i, 27), (4, i), (27, i)] {
                blend_pixel(&mut c, x, y, Rgba::new(255, 0, 0, 255));
            }
        }
        c
    };
    let fill = Rgba::new(0, 255, 0, 128);
    let all = |_x: u32, _y: u32| true;
    let out = draw_shape(img.clone(), (4, 4, 28, 28), &all, fill, &outline);
    assert_eq!(out.get_pixel(10, 10), Rgba::new(0, 128, 0, 128));
    assert_eq!(out.get_pixel(4, 10), Rgba::new(255, 0, 0, 255));
    assert_eq!(out.get_pixel(3, 10), Rgba::new(0, 0, 0, 0));
    let none = draw_shape(img, (4, 4, 28, 28), &all, Rgba::new(9, 9, 9, 0), &outline);
    assert_eq!(none.get_pixel(10, 10), Rgba::new(0, 0, 0, 0));
}

#[test]
fn draw_magnify_samples_base() {
    let img = solid(16, 16, Rgba::new(0, 0, 0, 0));
    let mut base = img.clone();
    for y in 0..16 {
        for x in 0..16 {
            let v = if (x + y) % 2 == 0 { 255 } else { 0 };
            base.put_pixel(x, y, Rgba::new(v, v, v, 255));
        }
    }
    // The box of 4 x 4 pixels shown three times as large.
    let source = |x: u32, y: u32| {
        let at = |v: u32| ((v as f32 + 0.5) / 12.0 * 4.0) as u32;
        Some((at(x), at(y)))
    };
    let red = Rgba::new(255, 0, 0, 255);
    let frame = |c: RgbaImage| {
        let mut c = c;
        for i in 0..12 {
            for (x, y) in [(i, 0), (i, 11), (0, i), (11, i)] {
                blend_pixel(&mut c, x, y, red);
            }
        }
        c
    };
    let area = (0, 0, 12, 12);
    let out = draw_magnify(img.clone(), &base, true, area, &source, red, true, &frame);
    // Some pixel in the target must have been written.
    assert!(out.get_pixel(3, 3).a > 0);
    assert_eq!(out.get_pixel(4, 4), Rgba::new(255, 255, 255, 255));
    assert_eq!(out.get_pixel(6, 4), Rgba::new(0, 0, 0, 255));
    assert_eq!(out.get_pixel(0, 5), red);
    assert_eq!(out.get_pixel(13, 5), Rgba::new(0, 0, 0, 0));
    let bare = draw_magnify(img.clone(), &base, true, area, &source, red, false, &frame);
    assert_eq!(bare.get_pixel(0, 5), Rgba::new(0, 0, 0, 255));
    let small = draw_magnify(img.clone(), &base, false, area, &source, red, true, &frame);
    assert_eq!(small.raw, img.raw);
}

#[test]
fn draw_blur_noop_in_bounds() {
    let base = solid(32, 32, Rgba::new(200, 100, 50, 255));
    let mut canvas = base.clone();
    draw_blur(&mut canvas, &base, (4, 4, 28, 28), &|c: RgbaImage| blurred(&c, 8.0));
    let p = canvas.get_pixel(16, 16);
    assert!((p.r as i32 - 200).abs() <= 2);
    assert_eq!(p.a, 255);
    // What lies on the canvas is hidden, and nothing outside the area is touched.
    let mut canvas = solid(32, 32, Rgba::new(1, 1, 1, 255));
    draw_blur(&mut canvas, &base, (4, 4, 99, 28), &|c: RgbaImage| c);
    assert_eq!(canvas.get_pixel(31, 16), Rgba::new(200, 100, 50, 255));
    assert_eq!(canvas.get_pixel(3, 16), Rgba::new(1, 1, 1, 255));
    draw_blur(&mut canvas, &base, (9, 9, 9, 20), &|_c: RgbaImage| panic!("nothing to soften"));
}

#[test]
fn draw_text_shadow_paints_dark_pixels() {
    let mut canvas = solid(64, 64, Rgba::new(255, 255, 255, 255));
    let soften = |c: RgbaImage| blurred(&c, 8.0);
    // The box from (10, 10) to (40, 30).
    draw_text_shadow(&mut canvas, (30, 20), (10 - 24 + 3, 10 - 24 + 4), &soften);
    let mut dark = false;
    for y in 10..40 {
        for x in 10..50 {
            dark = dark || canvas.get_pixel(x, y).r < 240;
        }
    }
    assert!(dark, "shadow should darken some pixels under the rect");
    let before = canvas.raw.clone();
    draw_text_shadow(&mut canvas, (0, 20), (0, 0), &soften);
    assert_eq!(canvas.raw, before);
    draw_text_shadow(&mut canvas, (1, 1), (0, 0), &|c: RgbaImage| c);
    assert!(canvas.get_pixel(24, 24).r < 255);
}

#[test]
fn draw_text_frosted_preserves_base_hue() {
    let base = solid(32, 32, Rgba::new(255, 0, 0, 255));
    let mut canvas = base.clone();
    draw_text_frosted(&mut canvas, &base, (4, 4, 28, 28), &|c: RgbaImage| blurred(&c, 10.0));
    let p = canvas.get_pixel(16, 16);
    assert!(p.r > 240, "red should stay dominant");
    assert!(p.g < 15, "green should stay near zero (no tint)");
    assert!(p.b < 15, "blue should stay near zero (no tint)");
}

fn captured() -> CaptureMetadata {
    CaptureMetadata {
        captured_at: CivilTime {
            year: 2026,
            month: 4,
            day: 21,
            hour: 12,
            minute: 0,
            second: 0,
            nanosecond: 0,
        },
        foreground_title: Some("Test".into()),
        foreground_process: Some("proc.exe".into()),
        os_version: "Windows 10.0".into(),
        monitors: vec![],
        capture_rect: Rect { x: 0, y: 0, width: 64, height: 64 },
    }
}

#[test]
fn draw_capture_info_renders() {
    let canvas = solid(64, 64, Rgba::new(255, 255, 255, 255));
    let style = CaptureInfoStyle::default();
    let (size, pad) = (f32::from_bits(style.text_size.bits), f32::from_bits(style.padding.bits));
    let measure = |lines: &Vec<String>| {
        let widest = lines.iter().map(|l| l.len()).max().unwrap_or(0) as f32 * size * 0.6;
        let (w, h) = (widest + pad * 2.0, lines.len() as f32 * size * 1.25 + pad * 2.0);
        (0, 0, w.round() as u32, h.round() as u32)
    };
    let write = |c: RgbaImage, _line: &String, _i: usize| c;
    let fields = vec![FieldKind::Timestamp, FieldKind::ProcessName];
    let out =
        draw_capture_info(canvas, Some(&captured()), &fields, style.fill, &measure, &write);
    // Top-left corner should have been filled with banner pixels.
    let p = out.get_pixel(1, 1);
    assert!(p.r < 255 || p.g < 255 || p.b < 255);
}

#[test]
fn banners_hold_one_line_for_each_field() {
    let meta = captured();
    let fields = vec![FieldKind::OsVersion, FieldKind::Timestamp];
    let measure = |lines: &Vec<String>| (0, 0, 2, lines.len() as u32);
    let write = |c: RgbaImage, line: &String, i: usize| {
        let mut c = c;
        c.put_pixel(3, i as u32, Rgba::new(line.len() as u8, 0, 0, 255));
        c
    };
    let clear = solid(4, 4, Rgba::new(0, 0, 0, 0));
    let ground = Rgba::new(7, 7, 7, 255);
    let out = draw_capture_info(clear.clone(), Some(&meta), &fields, ground, &measure, &write);
    let lines = capture_info_lines(Some(&meta), &fields);
    assert_eq!(lines.len(), 2);
    assert_eq!(out.get_pixel(1, 1), ground);
    assert_eq!(out.get_pixel(1, 2), Rgba::new(0, 0, 0, 0));
    assert_eq!(out.get_pixel(3, 0).r as usize, lines[0].len());
    assert_eq!(out.get_pixel(3, 1).r as usize, lines[1].len());
    let none = draw_capture_info(clear.clone(), None, &fields, ground, &measure, &write);
    assert_eq!(none.raw, clear.raw);
}

#[test]
fn smoothed_strokes_are_means_of_sixteen() {
    let mut canvas = solid(3, 3, Rgba::new(0, 0, 0, 255));
    let half = |c: RgbaImage| {
        assert_eq!((c.width, c.height), (8, 8));
        let mut c = c;
        fill_area(&mut c, 0, 0, 2, 4, Rgba::new(255, 255, 255, 255));
        c
    };
    draw_smoothed(&mut canvas, (1, 1, 9, 9), &half);
    // Half of the block is white and opaque: its mean has half the colour and alpha.
    assert_eq!(canvas.get_pixel(1, 1), Rgba::new(63, 63, 63, 255));
    assert_eq!(canvas.get_pixel(2, 1), Rgba::new(0, 0, 0, 255));
    assert_eq!(canvas.get_pixel(0, 0), Rgba::new(0, 0, 0, 255));
}

#[test]
fn arrows_are_painted_over_their_shadow() {
    let both = draw_arrow(ArrowHeadStyle::DoubleEnded, true);
    assert_eq!(both.len(), 6);
    assert_eq!(both[2], ArrowStroke::StartHead { shadow: true });
    assert_eq!(both[3], ArrowStroke::Shaft { shadow: false });
    let bare = draw_arrow(ArrowHeadStyle::NoHead, false);
    assert_eq!(bare, vec![ArrowStroke::Shaft { shadow: false }]);
    assert_eq!(draw_arrow(ArrowHeadStyle::LineOnly, false).len(), 2);
    assert_eq!(shaft_trims(ArrowHeadStyle::DoubleEnded), (true, true));
    assert_eq!(shaft_trims(ArrowHeadStyle::OutlineTriangle), (false, true));
    assert_eq!(shaft_trims(ArrowHeadStyle::LineOnly), (false, false));
}

#[test]
fn text_boxes_put_a_marker_beside_the_first_line() {
    // Four characters fit beside the marker.
    let fits = |_m: &[char], c: &[char], w: &[char]| c.len() + w.len() <= 4;
    let prefix = |_m: &[char], _w: &[char]| 4usize;
    let steps = draw_text_box("ab cd\n\n   \nef", TextListStyle::Numbered, &fits, &prefix);
    assert_eq!(steps.len(), 6);
    match (&steps[0], &steps[1], &steps[2]) {
        (
            TextStep::Line { marker, text },
            TextStep::Line { .. },
            TextStep::Marker { text: mark, lines_back },
        ) => {
            assert_eq!(marker.iter().collect::<String>(), "1. ");
            assert_eq!(text.iter().collect::<String>(), "ab");
            assert_eq!(mark.iter().collect::<String>(), "1. ");
            assert_eq!(*lines_back, 2);
        }
        other => panic!("{other:?}"),
    }
    // The empty line has no number; the one of white space has one and shows nothing.
    assert!(matches!(steps[3], TextStep::Blank));
    match &steps[5] {
        TextStep::Marker { text, lines_back: 1 } => {
            assert_eq!(text.iter().collect::<String>(), "3. ")
        }
        other => panic!("{other:?}"),
    }
}

#[test]
fn stamps_and_cursors_are_scaled_into_their_place() {
    let mut dot = solid(2, 1, Rgba::new(9, 0, 0, 255));
    dot.put_pixel(1, 0, Rgba::new(0, 9, 0, 255));
    let png = encode_png(&dot).unwrap();
    let base = solid(4, 2, Rgba::new(1, 1, 1, 255));
    let assets: Vec<Vec<u8>> = vec![vec![], vec![], vec![], vec![]];
    let place = |w: u32, h: u32, x: u32, y: u32| Some(((x * w / 4).min(w - 1), (y * h / 2).min(h - 1)));
    let mut canvas = base.clone();
    let stamp = StampSource::Inline { png: png.clone() };
    draw_stamp(&mut canvas, &stamp, &assets, (0, 0, 4, 2), &place);
    assert_eq!(canvas.get_pixel(1, 1), Rgba::new(9, 0, 0, 255));
    assert_eq!(canvas.get_pixel(2, 0), Rgba::new(0, 9, 0, 255));
    let mut canvas = base.clone();
    let unknown = StampSource::Builtin { name: "none".into() };
    draw_stamp(&mut canvas, &unknown, &assets, (0, 0, 4, 2), &place);
    assert_eq!(canvas.raw, base.raw);

    let far_png = png.clone();
    let cursor = SerializedCursor { png, width: 3, height: 9, x: -1, y: 1 };
    let left = |_w: u32, _h: u32, _x: u32, _y: u32| Some((1, 0));
    let out = compose_cursor(base.clone(), &Some(cursor), &left);
    assert_eq!(out.get_pixel(1, 1), Rgba::new(0, 9, 0, 255));
    assert_eq!(out.get_pixel(2, 1), Rgba::new(1, 1, 1, 255));
    assert_eq!(out.get_pixel(0, 0), Rgba::new(1, 1, 1, 255));
    // A cursor far off touches nothing; one of any size covers what it reaches.
    for (x, y) in [(i32::MAX, 0), (0, i32::MAX), (i32::MIN, i32::MIN)] {
        let off = SerializedCursor { png: far_png.clone(), width: u32::MAX / 4, height: 9, x, y };
        assert_eq!(compose_cursor(base.clone(), &Some(off), &left).raw, base.raw);
    }
    let vast =
        SerializedCursor { png: far_png, width: u32::MAX, height: u32::MAX, x: -5, y: -20_000_000 };
    let out = compose_cursor(base.clone(), &Some(vast), &left);
    assert_eq!(out.get_pixel(3, 1), Rgba::new(0, 9, 0, 255));
    let bad = SerializedCursor { png: vec![1], width: 3, height: 9, x: -1, y: 1 };
    assert_eq!(compose_cursor(base.clone(), &Some(bad), &left).raw, base.raw);
    assert_eq!(compose_cursor(base.clone(), &None, &left).raw, base.raw);
}

#[test]
fn a_plain_document_is_baked_into_its_picture() {
    let base = solid(3, 2, Rgba::new(5, 6, 7, 255));
    let paint = |c: RgbaImage, _b: &RgbaImage, _n: &AnnotationNode, _p: Part| c;
    let same = bake(&base, &vec![], &paint, None, None, &|c: RgbaImage| c);
    assert_eq!(same.raw, base.raw);
    let border = Border { shadow_radius: px(0.0), ..Border::default() };
    let m = BorderMetrics { border: 2, matte: 0, shadow_radius: 0, shadow_dx: 0, shadow_dy: 0 };
    let framed = bake(&base, &vec![], &paint, None, Some((border, m)), &|c: RgbaImage| c);
    assert_eq!((framed.width, framed.height), (7, 6));
}

/// Draws a text box in a font whose glyphs are blocks of one width.
fn draw_blocks(
    canvas: &mut RgbaImage,
    rect: [f32; 4],
    text: &str,
    size: f32,
    align: TextAlign,
    list: TextListStyle,
) {
    let advance = size * 0.6;
    let of = |run: &[char]| run.len() as f32 * advance;
    let room = |marker: &[char]| (rect[2] - rect[0] - of(marker)).max(0.0);
    let fits = |m: &[char], line: &[char], word: &[char]| of(line) + of(word) <= room(m);
    let prefix = |m: &[char], word: &[char]| {
        let mut n = 1;
        while n < word.len() && of(&word[..n + 1]) <= room(m) {
            n += 1;
        }
        n.min(word.len())
    };
    let run = |canvas: &mut RgbaImage, chars: &[char], x: f32, baseline: f32| {
        for (i, c) in chars.iter().enumerate() {
            let left = x + i as f32 * advance;
            if c.is_whitespace() {
                continue;
            }
            for py in (baseline - size * 0.6) as u32..baseline as u32 {
                for px in left.ceil() as u32..(left + advance * 0.9) as u32 {
                    if px < canvas.width && py < canvas.height {
                        canvas.put_pixel(px, py, Rgba::new(0, 0, 0, 255));
                    }
                }
            }
        }
    };
    let mut y = rect[1] + size * 0.8;
    let mut lines_at = Vec::new();
    for step in draw_text_box(text, list, &fits, &prefix) {
        match step {
            TextStep::Blank => y += size * 1.2,
            TextStep::Line { marker, text } => {
                let spare = (room(&marker) - of(&text)).max(0.0);
                let shift = match align {
                    TextAlign::Left => 0.0,
                    TextAlign::Center => spare * 0.5,
                    TextAlign::Right => spare,
                };
                run(canvas, &text, rect[0] + of(&marker) + shift, y);
                lines_at.push(y);
                y += size * 1.2;
            }
            TextStep::Marker { text, lines_back } => {
                run(canvas, &text, rect[0], lines_at[lines_at.len() - lines_back]);
            }
        }
    }
}

fn any_dark_in_band(canvas: &RgbaImage, x0: u32, x1: u32, y0: u32, y1: u32) -> bool {
    (y0..y1).any(|y| {
        (x0..x1).any(|x| {
            let p = canvas.get_pixel(x, y);
            p.r < 240 && p.g < 240 && p.b < 240
        })
    })
}

#[test]
fn draw_text_box_renders_and_wraps() {
    let mut canvas = solid(120, 120, Rgba::new(255, 255, 255, 255));
    draw_blocks(
        &mut canvas,
        [2.0, 2.0, 60.0, 60.0],
        "hi\nthis is a long sentence that wraps",
        14.0,
        TextAlign::Left,
        TextListStyle::Plain,
    );
    assert!(
        any_dark_in_band(&canvas, 0, 60, 28, 56),
        "expected wrapped/newlined text on a second line"
    );
    // Nothing is drawn past the right side of the box.
    assert!(!any_dark_in_band(&canvas, 61, 120, 0, 120));
}

#[test]
fn draw_text_box_center_aligns_lines() {
    let mut canvas = solid(200, 40, Rgba::new(255, 255, 255, 255));
    draw_blocks(
        &mut canvas,
        [0.0, 0.0, 160.0, 40.0],
        "hi",
        14.0,
        TextAlign::Center,
        TextListStyle::Plain,
    );
    assert!(
        !any_dark_in_band(&canvas, 0, 40, 0, 40),
        "center-aligned short line should not land in the left quarter"
    );
    assert!(
        any_dark_in_band(&canvas, 60, 100, 0, 40),
        "expected centered glyphs in the middle band"
    );
}

#[test]
fn draw_text_box_bullet_prefixes_paragraphs() {
    let mut canvas = solid(160, 120, Rgba::new(255, 255, 255, 255));
    draw_blocks(
        &mut canvas,
        [0.0, 0.0, 160.0, 120.0],
        "first\n\nsecond",
        16.0,
        TextAlign::Left,
        TextListStyle::Bullet,
    );
    assert!(
        any_dark_in_band(&canvas, 0, 10, 0, 24),
        "first paragraph should have a bullet in the leftmost column"
    );
    assert!(
        any_dark_in_band(&canvas, 0, 10, 40, 70),
        "second paragraph (after an empty paragraph) should also have a bullet"
    );
    assert!(!any_dark_in_band(&canvas, 0, 10, 24, 40));
}

#[test]
fn draw_text_box_numbered_counts_paragraphs() {
    let mut canvas = solid(160, 120, Rgba::new(255, 255, 255, 255));
    draw_blocks(
        &mut canvas,
        [0.0, 0.0, 160.0, 120.0],
        "a\n\nb",
        16.0,
        TextAlign::Left,
        TextListStyle::Numbered,
    );
    assert!(
        any_dark_in_band(&canvas, 0, 10, 0, 24),
        "first numbered paragraph should have a marker in the leftmost column"
    );
    assert!(
        any_dark_in_band(&canvas, 0, 10, 40, 70),
        "second numbered paragraph should have a marker in the leftmost column"
    );
}

#[test]
fn a_loupe_on_top_shows_the_untouched_picture() {
    let mut base = solid(8, 4, Rgba::new(10, 20, 30, 255));
    base.put_pixel(0, 0, Rgba::new(200, 0, 0, 255));
    let blur = AnnotationNode::Blur {
        id: NodeId { value: 2 },
        rect: Bounds { min_x: px(0.0), min_y: px(0.0), max_x: px(8.0), max_y: px(4.0) },
        radius_px: px(2.0),
    };
    let loupe = AnnotationNode::Magnify {
        id: NodeId { value: 3 },
        source_rect: Bounds { min_x: px(0.0), min_y: px(0.0), max_x: px(2.0), max_y: px(2.0) },
        target_rect: Bounds { min_x: px(4.0), min_y: px(0.0), max_x: px(8.0), max_y: px(4.0) },
        border: Rgba::new(0, 0, 0, 0),
        border_width: px(0.0),
        circular: false,
    };
    let paint = |canvas: RgbaImage, base: &RgbaImage, n: &AnnotationNode, _p: Part| match n {
        AnnotationNode::Magnify { border, .. } => {
            let source = |x: u32, y: u32| Some(((x - 4) / 2, y / 2));
            draw_magnify(canvas, base, true, (4, 0, 8, 4), &source, *border, false, &|c| c)
        }
        _ => {
            let mut c = canvas;
            fill_area(&mut c, 0, 0, 8, 4, Rgba::new(0, 0, 0, 255));
            c
        }
    };
    let alone = flatten(&base, &vec![loupe.clone()], &paint);
    let below = flatten(&base, &vec![blur.clone()], &paint);
    let both = flatten(&base, &vec![blur, loupe], &paint);
    for y in 0..4 {
        for x in 0..8 {
            let expected = if x < 4 { &below } else { &alone };
            assert_eq!(both.get_pixel(x, y), expected.get_pixel(x, y));
        }
    }
    assert_eq!(both.get_pixel(5, 1), Rgba::new(200, 0, 0, 255));
    assert_eq!(both.get_pixel(6, 1), Rgba::new(10, 20, 30, 255));
}

#[test]
fn a_shadow_with_a_radius_is_softened() {
    let base = solid(2, 2, Rgba::new(9, 9, 9, 255));
    let border = Border { shadow_color: Rgba::new(40, 40, 40, 200), ..Border::default() };
    let m = BorderMetrics { border: 1, matte: 0, shadow_radius: 2, shadow_dx: 0, shadow_dy: 0 };
    // The blur marks every pixel that it is shown.
    let mark = |mut c: RgbaImage| {
        for y in 0..c.height {
            for x in 0..c.width {
                let p = c.get_pixel(x, y);
                c.put_pixel(x, y, Rgba::new(p.a, 1, 2, 255));
            }
        }
        c
    };
    let out = apply_border(&base, &border, m, &mark);
    assert_eq!((out.width, out.height), (2 + 2 + 4, 2 + 2 + 4));
    assert_eq!(out.get_pixel(0, 0), Rgba::new(0, 1, 2, 255));
    assert_eq!(out.get_pixel(3, 3), Rgba::new(9, 9, 9, 255));
    let plain = apply_border(&base, &border, BorderMetrics { shadow_radius: 0, ..m }, &mark);
    assert_eq!((plain.width, plain.height), (4, 4));
    assert_eq!(plain.get_pixel(1, 1), Rgba::new(9, 9, 9, 255));
}
