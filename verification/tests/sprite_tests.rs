use cockroach_reminder::sprite::{alpha_bounds, decode_frame, sprite_crop, CropRect, RgbaFrame};

/// A frame of `w * h` transparent pixels with the listed pixels opaque.
fn frame(w: u32, h: u32, opaque: &[(u32, u32)]) -> RgbaFrame {
    let mut pixels = vec![0u8; (w * h * 4) as usize];
    for &(x, y) in opaque {
        let i = ((y * w + x) * 4) as usize;
        pixels[i] = 200;
        pixels[i + 3] = 255;
    }
    RgbaFrame {
        width: w,
        height: h,
        pixels,
    }
}

#[test]
fn alpha_bounds_of_single_pixel() {
    assert_eq!(alpha_bounds(&frame(5, 4, &[(2, 3)])), (2, 3, 2, 3));
}

#[test]
fn alpha_bounds_spans_all_visible_pixels() {
    let f = frame(10, 8, &[(7, 1), (2, 5), (4, 6)]);
    assert_eq!(alpha_bounds(&f), (2, 1, 7, 6));
}

#[test]
fn alpha_bounds_of_transparent_frame() {
    assert_eq!(alpha_bounds(&frame(6, 3, &[])), (6, 3, 0, 0));
}

#[test]
fn alpha_bounds_ignores_colour_of_transparent_pixels() {
    let mut f = frame(3, 3, &[(1, 1)]);
    // Colour without alpha does not count.
    f.pixels[0] = 255;
    f.pixels[1] = 255;
    f.pixels[2] = 255;
    assert_eq!(alpha_bounds(&f), (1, 1, 1, 1));
}

#[test]
fn crop_joins_all_frames() {
    let frames = vec![
        frame(10, 10, &[(3, 4)]),
        frame(10, 10, &[(6, 2), (5, 8)]),
        frame(10, 10, &[]),
    ];
    assert_eq!(
        sprite_crop(&frames),
        Some(CropRect {
            x: 3,
            y: 2,
            width: 4,
            height: 7
        })
    );
}

#[test]
fn crop_of_fully_transparent_frames_is_none() {
    assert_eq!(sprite_crop(&vec![frame(4, 4, &[]), frame(4, 4, &[])]), None);
    assert_eq!(sprite_crop(&vec![]), None);
}

fn png_bytes(w: u32, h: u32, raw: Vec<u8>) -> Vec<u8> {
    let img = image::RgbaImage::from_raw(w, h, raw).unwrap();
    let mut out = std::io::Cursor::new(Vec::new());
    img.write_to(&mut out, image::ImageFormat::Png).unwrap();
    out.into_inner()
}

#[test]
fn decode_frame_reads_png_pixels() {
    let raw = vec![1, 2, 3, 0, 10, 20, 30, 255];
    let bytes = png_bytes(2, 1, raw.clone());
    let f = decode_frame(&bytes).expect("valid png");
    assert_eq!(f.width, 2);
    assert_eq!(f.height, 1);
    assert_eq!(f.pixels, raw);
    assert_eq!(alpha_bounds(&f), (1, 0, 1, 0));
}

#[test]
fn decode_frame_rejects_garbage() {
    assert!(decode_frame(&[0u8, 1, 2, 3, 4, 5]).is_none());
    assert!(decode_frame(&[]).is_none());
}

#[test]
fn crop_frames_copies_the_rectangle_of_every_frame() {
    let frames = vec![frame(4, 3, &[(1, 1)]), frame(4, 3, &[(2, 2)])];
    let rect = sprite_crop(&frames).unwrap();
    assert_eq!(
        rect,
        CropRect {
            x: 1,
            y: 1,
            width: 2,
            height: 2
        }
    );
    let parts = cockroach_reminder::sprite::crop_frames(&frames, rect);
    assert_eq!(parts.len(), 2);
    for p in &parts {
        assert_eq!((p.width, p.height), (2, 2));
        assert_eq!(p.pixels.len(), 16);
    }
    // Frame 0: visible pixel (1, 1) is now (0, 0); frame 1: (2, 2) is now (1, 1).
    assert_eq!(alpha_bounds(&parts[0]), (0, 0, 0, 0));
    assert_eq!(alpha_bounds(&parts[1]), (1, 1, 1, 1));
    assert_eq!(&parts[1].pixels[12..16], &[200, 0, 0, 255]);
}

#[test]
fn crop_frames_clamps_to_the_frame() {
    let frames = vec![frame(3, 2, &[(2, 1)])];
    let parts = cockroach_reminder::sprite::crop_frames(
        &frames,
        CropRect {
            x: 2,
            y: 1,
            width: 10,
            height: 10,
        },
    );
    assert_eq!((parts[0].width, parts[0].height), (1, 1));
    assert_eq!(parts[0].pixels, vec![200, 0, 0, 255]);
}

#[test]
fn decode_frame_guesses_the_format_from_its_bytes() {
    let raw = vec![9, 8, 7, 255, 0, 0, 0, 0];
    let img = image::RgbaImage::from_raw(2, 1, raw.clone()).unwrap();
    let mut out = std::io::Cursor::new(Vec::new());
    img.write_to(&mut out, image::ImageFormat::Bmp).unwrap();
    let f = decode_frame(&out.into_inner()).expect("valid bmp");
    assert_eq!((f.width, f.height), (2, 1));
    assert_eq!(&f.pixels[0..4], &[9, 8, 7, 255]);
    assert_eq!(alpha_bounds(&f), (0, 0, 0, 0));
}
