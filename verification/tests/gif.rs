use grabit::codec::{decode_image, encode_png};
use grabit::export::gif::{
    bbox_of_diff, build_diff_frame, compact_identical, delay_ms_to_centisec, encode_to_gif,
    quantize_frame, DecodedFrame, GifFault, GifPlan,
};
use grabit::image::RgbaImage;
use grabit::px::Rgba;
use image::AnimationDecoder;

/// A frame as it comes back from the PNG file it was spooled to.
fn spooled(img: &RgbaImage, delay_ms: u32) -> DecodedFrame {
    let png = encode_png(img).unwrap();
    DecodedFrame { image: decode_image(&png).unwrap(), delay_ms }
}

fn write(plan: &GifPlan) -> Vec<u8> {
    let mut out: Vec<u8> = Vec::new();
    let mut encoder = gif::Encoder::new(&mut out, plan.width, plan.height, &[]).unwrap();
    let repeat = match plan.repeat {
        Some(n) => gif::Repeat::Finite(n),
        None => gif::Repeat::Infinite,
    };
    encoder.set_repeat(repeat).unwrap();
    for f in &plan.frames {
        let q = quantize_frame(f);
        let mut frame = gif::Frame::from_palette_pixels(
            q.width,
            q.height,
            q.indices.clone(),
            q.palette.clone(),
            q.transparent,
        );
        frame.left = q.left;
        frame.top = q.top;
        frame.delay = q.delay;
        frame.dispose = gif::DisposalMethod::Keep;
        encoder.write_frame(&frame).unwrap();
    }
    drop(encoder);
    out
}

fn frames_of(bytes: &[u8]) -> Vec<image::Frame> {
    let decoder = image::codecs::gif::GifDecoder::new(std::io::Cursor::new(bytes)).unwrap();
    decoder.into_frames().collect_frames().unwrap()
}

#[test]
fn encode_round_trip_three_frames() {
    let colors =
        [Rgba::new(255, 0, 0, 255), Rgba::new(0, 255, 0, 255), Rgba::new(0, 0, 255, 255)];
    let frames: Vec<DecodedFrame> =
        colors.iter().map(|c| spooled(&RgbaImage::from_pixel(8, 8, *c), 100)).collect();
    let plan = encode_to_gif(frames, 0).unwrap();
    assert!(plan.repeat.is_none());
    let bytes = write(&plan);
    assert!(!bytes.is_empty(), "encoder did not produce a file");
    let frames = frames_of(&bytes);
    assert_eq!(frames.len(), 3, "expected 3 frames, got {}", frames.len());
}

#[test]
fn identical_frames_compact_to_one() {
    let img = RgbaImage::from_pixel(8, 8, Rgba::new(128, 64, 200, 255));
    let frames = vec![spooled(&img, 100), spooled(&img, 100), spooled(&img, 100)];
    let plan = encode_to_gif(frames, 0).unwrap();
    assert_eq!(plan.frames[0].delay, 30);
    let frames = frames_of(&write(&plan));
    assert_eq!(
        frames.len(),
        1,
        "expected 3 identical inputs to compact to 1 frame, got {}",
        frames.len()
    );
}

#[test]
fn diff_frame_uses_subrect() {
    let img0 = RgbaImage::from_pixel(32, 32, Rgba::new(255, 0, 0, 255));
    let mut img1 = img0.clone();
    for y in 10..14 {
        for x in 10..14 {
            img1.put_pixel(x, y, Rgba::new(0, 255, 0, 255));
        }
    }
    let plan = encode_to_gif(vec![spooled(&img0, 100), spooled(&img1, 100)], 0).unwrap();
    let bytes = write(&plan);
    let mut opts = gif::DecodeOptions::new();
    opts.set_color_output(gif::ColorOutput::Indexed);
    let mut decoder = opts.read_info(std::io::Cursor::new(bytes)).unwrap();
    let mut subframe_sizes = Vec::new();
    while let Some(frame) = decoder.read_next_frame().unwrap() {
        subframe_sizes.push((frame.width, frame.height));
    }
    assert_eq!(subframe_sizes.len(), 2);
    // Frame 0 is full-canvas.
    assert_eq!(subframe_sizes[0], (32, 32));
    // Frame 1 is the 4x4 rectangle that changed.
    assert_eq!(subframe_sizes[1], (4, 4));
}

#[test]
fn a_written_gif_shows_the_recorded_pictures() {
    let mut pictures = Vec::new();
    for i in 0..4u32 {
        let mut img = RgbaImage::from_pixel(6, 5, Rgba::new(0, 0, 0, 255));
        img.put_pixel(i, i, Rgba::new(255, 255, 255, 255));
        pictures.push(img);
    }
    let frames = pictures.iter().map(|p| spooled(p, 40)).collect();
    let plan = encode_to_gif(frames, 3).unwrap();
    assert_eq!(plan.repeat, Some(3));
    let shown = frames_of(&write(&plan));
    assert_eq!(shown.len(), 4);
    for (frame, picture) in shown.iter().zip(&pictures) {
        assert_eq!(frame.buffer().as_raw(), &picture.raw);
    }
}

#[test]
fn delays_are_at_least_one_tick() {
    assert_eq!(delay_ms_to_centisec(0), 1);
    assert_eq!(delay_ms_to_centisec(9), 1);
    assert_eq!(delay_ms_to_centisec(33), 3);
    assert_eq!(delay_ms_to_centisec(u32::MAX), 65535);
}

#[test]
fn boxes_of_difference() {
    let a = RgbaImage::from_pixel(4, 3, Rgba::new(9, 9, 9, 255));
    let mut b = a.clone();
    assert!(bbox_of_diff(&a, &b).is_none());
    b.put_pixel(1, 2, Rgba::new(9, 9, 9, 254));
    b.put_pixel(3, 1, Rgba::new(8, 9, 9, 255));
    assert_eq!(bbox_of_diff(&a, &b), Some((1, 1, 4, 3)));
    let f = build_diff_frame(&a, &b, 5);
    assert_eq!((f.left, f.top, f.delay), (1, 1, 5));
    assert_eq!((f.image.width, f.image.height), (3, 2));
    // Without a difference a single pixel that cannot be seen stands in.
    let stub = build_diff_frame(&a, &a, 5);
    assert_eq!((stub.image.width, stub.image.height), (1, 1));
    assert_eq!(stub.image.raw, vec![0, 0, 0, 0]);
}

#[test]
fn compaction_adds_the_delays_up() {
    let a = RgbaImage::from_pixel(1, 1, Rgba::new(1, 1, 1, 255));
    let b = RgbaImage::from_pixel(1, 1, Rgba::new(2, 2, 2, 255));
    let frame = |img: &RgbaImage, d: u32| DecodedFrame { image: img.clone(), delay_ms: d };
    let out = compact_identical(vec![frame(&a, 10), frame(&a, 20), frame(&b, 5), frame(&a, 1)]);
    let delays: Vec<u32> = out.iter().map(|f| f.delay_ms).collect();
    assert_eq!(delays, vec![30, 5, 1]);
    let full = compact_identical(vec![frame(&a, u32::MAX), frame(&a, 1)]);
    assert_eq!(full[0].delay_ms, u32::MAX);
}

#[test]
fn refused_gifs_say_why() {
    let none = encode_to_gif(Vec::new(), 0).unwrap_err();
    assert_eq!(none, GifFault::NoFrames);
    assert!(!none.message().is_empty());
    let wide = RgbaImage::from_pixel(65536, 1, Rgba::new(0, 0, 0, 255));
    let e = encode_to_gif(vec![DecodedFrame { image: wide, delay_ms: 1 }], 0).unwrap_err();
    assert_eq!(e, GifFault::WidthTooLarge);
    assert_eq!(e.message(), "frame width > 65535");
    let tall = RgbaImage::from_pixel(1, 65536, Rgba::new(0, 0, 0, 255));
    let e = encode_to_gif(vec![DecodedFrame { image: tall, delay_ms: 1 }], 0).unwrap_err();
    assert_eq!(e, GifFault::HeightTooLarge);
    assert_eq!(e.message(), "frame height > 65535");
}
